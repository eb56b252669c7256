use vstd::prelude::*;

use crate::pushd::PushdConfig;
use crate::rabbit::{lengthened, next_backoff, wait_after, RabbitConfig, INITIAL_BACKOFF};
use crate::text::{copy_of, distinct, distinct_of, holds, lemma_distinct, texts};

verus! {

/// What a message that is published says of itself.
pub const CONTENT_TYPE: &'static str = "application/json";

/// Delivery mode of a message that outlives the broker.
pub const PERSISTENT: u8 = 2;

/// A friend request was accepted: who accepted it, and whom to tell.
#[derive(Debug, PartialEq, Eq)]
pub struct FRAcceptedPayload<U> {
    pub accepted_user: U,
    pub user: String,
}

/// A friend request came in: who sent it, and whom to tell.
#[derive(Debug, PartialEq, Eq)]
pub struct FRReceivedPayload<U> {
    pub from_user: U,
    pub user: String,
}

/// A notification with a text of its own, for one user.
#[derive(Debug, PartialEq, Eq)]
pub struct GenericPayload<U> {
    pub title: String,
    pub body: String,
    pub icon: Option<String>,
    pub user: U,
}

/// A message was sent: the notification, and the users to tell.
#[derive(Debug, PartialEq, Eq)]
pub struct MessageSentPayload<N> {
    pub notification: N,
    pub users: Vec<String>,
}

/// Messages that mention many were sent in a server.
#[derive(Debug, PartialEq, Eq)]
pub struct MassMessageSentPayload<N> {
    pub notifications: Vec<N>,
    pub server_id: String,
}

/// A user has read a channel up to a message.
#[derive(Debug, PartialEq, Eq)]
pub struct AckPayload {
    pub user_id: String,
    pub channel_id: String,
    pub message_id: String,
}

/// A call rings, or has stopped ringing.
#[derive(Debug, PartialEq, Eq)]
pub struct DmCallPayload {
    pub initiator_id: String,
    pub channel_id: String,
    pub started_at: Option<String>,
    /// Whether the ringing, not necessarily the call, has ended
    pub ended: bool,
}

/// A call update and whom to tell; everyone in the call if nobody is named.
#[derive(Debug, PartialEq, Eq)]
pub struct InternalDmCallPayload {
    pub payload: DmCallPayload,
    pub recipients: Option<Vec<String>>,
}

/// An acknowledgement to be processed.
#[derive(Debug, PartialEq, Eq)]
pub struct AckEventPayload {
    pub user_id: String,
    pub channel_id: Option<String>,
    pub server_id: Option<String>,
}

/// A message for the broker.
#[derive(Debug, PartialEq, Eq)]
pub struct Publication<P> {
    pub exchange: String,
    pub routing_key: String,
    pub payload: P,
}

/// Users that a message may concern, before it is known who of them is online.
#[derive(Debug, PartialEq, Eq)]
pub struct PendingMessage<N> {
    pub recipients: Vec<String>,
    pub notification: N,
}

/// The recipients that are not online, each once.
pub open spec fn offline_of(recipients: Seq<Seq<char>>, online: Seq<Seq<char>>) -> Seq<Seq<char>> {
    distinct_of(recipients).filter(|id: Seq<char>| !online.contains(id))
}

/// The recipients that are not online.
pub fn offline(recipients: &Vec<String>, online: &Vec<String>) -> (result: Vec<String>)
    ensures
        texts(result@) == offline_of(texts(recipients@), texts(online@)),
{
    let once = distinct(recipients);
    let ghost away = |id: Seq<char>| !texts(online@).contains(id);
    let mut result: Vec<String> = Vec::new();
    assert(texts(once@).take(0).filter(away) =~= Seq::empty());
    assert(texts(result@) =~= Seq::empty());
    for i in 0..once.len()
        invariant
            away == (|id: Seq<char>| !texts(online@).contains(id)),
            texts(result@) == texts(once@).take(i as int).filter(away),
    {
        let ghost part = texts(once@).take(i + 1);
        assert(part.drop_last() =~= texts(once@).take(i as int));
        assert(part.last() == once@[i as int]@);
        proof {
            reveal(Seq::filter);
        }
        let seen = holds(online, once[i].as_str());
        if !seen {
            let ghost earlier = result@;
            result.push(once[i].clone());
            assert(texts(result@) =~= texts(earlier).push(once@[i as int]@));
        }
    }
    assert(texts(once@).take(once@.len() as int) =~= texts(once@));
    result
}

/// Those told of a message are exactly the recipients that are not online, nobody twice.
pub proof fn law_only_offline_recipients_are_told(
    recipients: Seq<Seq<char>>,
    online: Seq<Seq<char>>,
)
    ensures
        offline_of(recipients, online).no_duplicates(),
        forall|id: Seq<char>| #[trigger]
            offline_of(recipients, online).contains(id) <==> recipients.contains(id)
                && !online.contains(id),
{
    broadcast use vstd::seq_lib::group_filter_ensures;

    lemma_distinct(recipients);
    let once = distinct_of(recipients);
    let away = |id: Seq<char>| !online.contains(id);
    lemma_filter_no_duplicates(once, away);
    assert forall|id: Seq<char>| #[trigger]
        offline_of(recipients, online).contains(id) <==> recipients.contains(id)
            && !online.contains(id) by {
        if recipients.contains(id) && !online.contains(id) {
            assert(once.contains(id));
            once.lemma_filter_contains_rev(away, id);
        }
        if offline_of(recipients, online).contains(id) {
            assert(once.contains(id));
            let i = offline_of(recipients, online).index_of(id);
            assert(away(once.filter(away)[i]));
        }
    }
}

proof fn lemma_filter_no_duplicates(list: Seq<Seq<char>>, pred: spec_fn(Seq<char>) -> bool)
    requires
        list.no_duplicates(),
    ensures
        list.filter(pred).no_duplicates(),
        forall|id: Seq<char>| list.filter(pred).contains(id) ==> #[trigger] list.contains(id),
    decreases list.len(),
{
    reveal(Seq::filter);
    if list.len() != 0 {
        let rest = list.drop_last();
        lemma_filter_no_duplicates(rest, pred);
        assert forall|id: Seq<char>| list.filter(pred).contains(id) implies #[trigger]
            list.contains(id) by {
            if rest.filter(pred).contains(id) {
                assert(rest.contains(id));
                let i = rest.index_of(id);
                assert(list[i] == id);
            } else {
                assert(id == list.last());
            }
        }
        if pred(list.last()) && rest.filter(pred).contains(list.last()) {
            assert(rest.contains(list.last()));
            let i = rest.index_of(list.last());
            assert(list[i] == list[list.len() - 1]);
        }
    }
}

/// Where a publisher puts what it publishes.
#[derive(Debug, PartialEq, Eq)]
pub struct AMQP {
    pub pushd: PushdConfig,
    pub rabbit: RabbitConfig,
}

impl AMQP {
    /// A publisher under a configuration.
    pub fn new(pushd: PushdConfig, rabbit: RabbitConfig) -> (amqp: AMQP)
        ensures
            amqp.pushd == pushd,
            amqp.rabbit == rabbit,
    {
        AMQP { pushd, rabbit }
    }

    /// The attempts to reach the broker when a service starts.
    pub fn new_auto() -> (startup: Startup)
        ensures
            startup == (Startup { backoff: INITIAL_BACKOFF }),
    {
        Startup { backoff: INITIAL_BACKOFF }
    }

    /// Tell the sender of a friend request that it was accepted.
    pub fn friend_request_accepted<U>(
        &self,
        accepted_request_user: U,
        sent_request_user_id: &String,
    ) -> (result: Publication<FRAcceptedPayload<U>>)
        ensures
            result.exchange == self.pushd.exchange,
            result.routing_key == self.pushd.fr_accepted_routing_key,
            result.payload.accepted_user == accepted_request_user,
            result.payload.user == *sent_request_user_id,
    {
        Publication {
            exchange: self.pushd.exchange.clone(),
            routing_key: self.pushd.fr_accepted_routing_key.clone(),
            payload: FRAcceptedPayload {
                accepted_user: accepted_request_user,
                user: sent_request_user_id.clone(),
            },
        }
    }

    /// Tell the receiver of a friend request who sent it.
    pub fn friend_request_received<U>(
        &self,
        received_request_user_id: &String,
        sent_request_user: U,
    ) -> (result: Publication<FRReceivedPayload<U>>)
        ensures
            result.exchange == self.pushd.exchange,
            result.routing_key == self.pushd.fr_received_routing_key,
            result.payload.from_user == sent_request_user,
            result.payload.user == *received_request_user_id,
    {
        Publication {
            exchange: self.pushd.exchange.clone(),
            routing_key: self.pushd.fr_received_routing_key.clone(),
            payload: FRReceivedPayload {
                from_user: sent_request_user,
                user: received_request_user_id.clone(),
            },
        }
    }

    /// Notify a user with a text of one's own.
    pub fn generic_message<U>(
        &self,
        user: U,
        title: String,
        body: String,
        icon: Option<String>,
    ) -> (result: Publication<GenericPayload<U>>)
        ensures
            result.exchange == self.pushd.exchange,
            result.routing_key == self.pushd.generic_routing_key,
            result.payload == (GenericPayload { title, body, icon, user }),
    {
        Publication {
            exchange: self.pushd.exchange.clone(),
            routing_key: self.pushd.generic_routing_key.clone(),
            payload: GenericPayload { title, body, icon, user },
        }
    }

    /// Notify users of a message: nothing is to be done if there are none, else it is to be
    /// found out first who of them is online.
    pub fn message_sent<N>(&self, recipients: Vec<String>, payload: N) -> (result: Option<
        PendingMessage<N>,
    >)
        ensures
            recipients@.len() == 0 <==> result is None,
            result matches Some(pending) ==> pending.recipients == recipients
                && pending.notification == payload,
    {
        if recipients.len() == 0 {
            None
        } else {
            Some(PendingMessage { recipients, notification: payload })
        }
    }

    /// The notification for those that are not online.
    pub fn address<N>(&self, pending: PendingMessage<N>, online: &Vec<String>) -> (result:
        Publication<MessageSentPayload<N>>)
        ensures
            result.exchange == self.pushd.exchange,
            result.routing_key == self.pushd.message_routing_key,
            result.payload.notification == pending.notification,
            texts(result.payload.users@) == offline_of(
                texts(pending.recipients@),
                texts(online@),
            ),
    {
        let users = offline(&pending.recipients, online);
        Publication {
            exchange: self.pushd.exchange.clone(),
            routing_key: self.pushd.message_routing_key.clone(),
            payload: MessageSentPayload { notification: pending.notification, users },
        }
    }

    /// Notify a server of messages that mention many.
    pub fn mass_mention_message_sent<N>(&self, server_id: String, payload: Vec<N>) -> (result:
        Publication<MassMessageSentPayload<N>>)
        ensures
            result.exchange == self.pushd.exchange,
            result.routing_key == self.pushd.mass_mention_routing_key,
            result.payload == (MassMessageSentPayload { notifications: payload, server_id }),
    {
        Publication {
            exchange: self.pushd.exchange.clone(),
            routing_key: self.pushd.mass_mention_routing_key.clone(),
            payload: MassMessageSentPayload { notifications: payload, server_id },
        }
    }

    /// Tell the push daemon what a user has read, so that badges are brought up to date.
    pub fn ack_notification_message(
        &self,
        user_id: String,
        channel_id: String,
        message_id: String,
    ) -> (result: Publication<AckPayload>)
        ensures
            result.exchange == self.pushd.exchange,
            result.routing_key == self.pushd.ack_queue,
            result.payload == (AckPayload { user_id, channel_id, message_id }),
    {
        Publication {
            exchange: self.pushd.exchange.clone(),
            routing_key: self.pushd.ack_queue.clone(),
            payload: AckPayload { user_id, channel_id, message_id },
        }
    }

    /// Tell of the start or the end of a call's ringing.
    pub fn dm_call_updated(
        &self,
        initiator_id: &String,
        channel_id: &String,
        started_at: &Option<String>,
        ended: bool,
        recipients: Option<Vec<String>>,
    ) -> (result: Publication<InternalDmCallPayload>)
        ensures
            result.exchange == self.pushd.exchange,
            result.routing_key == self.pushd.dm_call_routing_key,
            result.payload.recipients == recipients,
            result.payload.payload == (DmCallPayload {
                initiator_id: *initiator_id,
                channel_id: *channel_id,
                started_at: *started_at,
                ended,
            }),
    {
        Publication {
            exchange: self.pushd.exchange.clone(),
            routing_key: self.pushd.dm_call_routing_key.clone(),
            payload: InternalDmCallPayload {
                payload: DmCallPayload {
                    initiator_id: initiator_id.clone(),
                    channel_id: channel_id.clone(),
                    started_at: copy_of(started_at),
                    ended,
                },
                recipients,
            },
        }
    }

    /// Hand an acknowledgement to the cron daemon for processing.
    pub fn process_ack(
        &self,
        user_id: &String,
        channel_id: &Option<String>,
        server_id: &Option<String>,
    ) -> (result: Publication<AckEventPayload>)
        ensures
            result.exchange == self.rabbit.default_exchange,
            result.routing_key == self.rabbit.acks_queue,
            result.payload == (AckEventPayload {
                user_id: *user_id,
                channel_id: *channel_id,
                server_id: *server_id,
            }),
    {
        Publication {
            exchange: self.rabbit.default_exchange.clone(),
            routing_key: self.rabbit.acks_queue.clone(),
            payload: AckEventPayload {
                user_id: user_id.clone(),
                channel_id: copy_of(channel_id),
                server_id: copy_of(server_id),
            },
        }
    }
}

/// The attempts to reach the broker when a service starts: as many as it takes, with a wait
/// after each that failed, since a service that crashes on a startup race helps nobody.
#[derive(Debug, Clone, Copy, PartialEq, Eq, Structural)]
pub struct Startup {
    /// Seconds to wait after the next failure
    pub backoff: u64,
}

impl Startup {
    /// The broker could not be reached: how many seconds to wait before trying again.
    pub fn failed(&mut self) -> (seconds: u64)
        ensures
            seconds == old(self).backoff,
            final(self).backoff == lengthened(old(self).backoff as int),
    {
        let seconds: u64 = self.backoff;
        self.backoff = next_backoff(seconds);
        seconds
    }
}

/// The startup after some failures.
pub open spec fn after_failures(failures: nat) -> Startup
    decreases failures,
{
    if failures == 0 {
        Startup { backoff: INITIAL_BACKOFF }
    } else {
        Startup {
            backoff: lengthened(after_failures((failures - 1) as nat).backoff as int) as u64,
        }
    }
}

/// A broker that is down is tried again however often it failed, after a wait that is never
/// longer than the longest one.
pub proof fn law_startup_retries(failures: nat)
    ensures
        after_failures(failures).backoff == wait_after(failures),
        INITIAL_BACKOFF <= after_failures(failures).backoff <= crate::rabbit::MAX_BACKOFF,
    decreases failures,
{
    crate::rabbit::law_backoff_is_capped(failures);
    if failures > 0 {
        law_startup_retries((failures - 1) as nat);
    }
}

/// How far the publishing of one message has come.
#[derive(Debug, Clone, Copy, PartialEq, Eq, Structural)]
pub enum PublishStage {
    /// The first attempt
    First,
    /// It failed; the connection is looked at, with nobody else touching it
    Inspecting,
    /// The connection is gone; another one is opened
    Reopening,
    /// The second attempt
    Second,
    /// Published, or not
    Finished { published: bool },
}

/// What to do to get a message published.
#[derive(Debug, Clone, Copy, PartialEq, Eq, Structural)]
pub enum PublishAction {
    /// Publish on a channel of its own, on the connection there is
    TryPublish,
    /// Say whether the connection is up
    Inspect,
    /// Replace the connection by a fresh one
    Reopen,
    /// Nothing more
    Finish { published: bool },
}

/// The publishing of one message: one attempt, and one more after the connection was
/// recovered.
#[derive(Debug, Clone, Copy, PartialEq, Eq, Structural)]
pub struct Publish {
    pub stage: PublishStage,
}

/// What a stage asks for.
pub open spec fn publish_action(stage: PublishStage) -> PublishAction {
    match stage {
        PublishStage::First => PublishAction::TryPublish,
        PublishStage::Inspecting => PublishAction::Inspect,
        PublishStage::Reopening => PublishAction::Reopen,
        PublishStage::Second => PublishAction::TryPublish,
        PublishStage::Finished { published } => PublishAction::Finish { published },
    }
}

/// The stage after what was asked for went well (the connection is up), or did not.
pub open spec fn publish_next(stage: PublishStage, well: bool) -> PublishStage {
    match stage {
        PublishStage::First => if well {
            PublishStage::Finished { published: true }
        } else {
            PublishStage::Inspecting
        },
        PublishStage::Inspecting => if well {
            PublishStage::Second
        } else {
            PublishStage::Reopening
        },
        PublishStage::Reopening => if well {
            PublishStage::Second
        } else {
            PublishStage::Finished { published: false }
        },
        PublishStage::Second => PublishStage::Finished { published: well },
        PublishStage::Finished { published } => stage,
    }
}

impl Publish {
    /// A message that has not been tried.
    pub fn new() -> (publish: Publish)
        ensures
            publish.stage == PublishStage::First,
    {
        Publish { stage: PublishStage::First }
    }

    /// What to do.
    pub fn action(&self) -> (action: PublishAction)
        ensures
            action == publish_action(self.stage),
    {
        match self.stage {
            PublishStage::First => PublishAction::TryPublish,
            PublishStage::Inspecting => PublishAction::Inspect,
            PublishStage::Reopening => PublishAction::Reopen,
            PublishStage::Second => PublishAction::TryPublish,
            PublishStage::Finished { published } => PublishAction::Finish { published },
        }
    }

    /// Take up how that went.
    pub fn advance(&mut self, well: bool)
        ensures
            final(self).stage == publish_next(old(self).stage, well),
    {
        self.stage = match self.stage {
            PublishStage::First => if well {
                PublishStage::Finished { published: true }
            } else {
                PublishStage::Inspecting
            },
            PublishStage::Inspecting => if well {
                PublishStage::Second
            } else {
                PublishStage::Reopening
            },
            PublishStage::Reopening => if well {
                PublishStage::Second
            } else {
                PublishStage::Finished { published: false }
            },
            PublishStage::Second => PublishStage::Finished { published: well },
            PublishStage::Finished { published } => PublishStage::Finished { published },
        };
    }
}

/// The stages that a message goes through, given how each thing that was asked for went.
pub open spec fn publish_run(outcomes: Seq<bool>) -> PublishStage
    decreases outcomes.len(),
{
    if outcomes.len() == 0 {
        PublishStage::First
    } else {
        publish_next(publish_run(outcomes.drop_last()), outcomes.last())
    }
}

/// How often something was asked for on the way.
pub open spec fn times_asked(outcomes: Seq<bool>, action: PublishAction) -> nat
    decreases outcomes.len(),
{
    if outcomes.len() == 0 {
        0
    } else {
        let asked = publish_action(publish_run(outcomes.drop_last())) == action;
        times_asked(outcomes.drop_last(), action) + if asked { 1nat } else { 0 }
    }
}

/// A message is tried at most twice and a connection opened at most once; four answers at
/// most settle it; and it counts as published exactly if one of the attempts went well.
pub proof fn law_publish_retries_once(outcomes: Seq<bool>)
    ensures
        times_asked(outcomes, PublishAction::TryPublish) <= 2,
        times_asked(outcomes, PublishAction::Reopen) <= 1,
        outcomes.len() >= 4 ==> publish_run(outcomes) is Finished,
        publish_run(outcomes) is Second ==> times_asked(outcomes, PublishAction::TryPublish) == 1,
        publish_run(outcomes) == (PublishStage::Finished { published: true }) ==> exists|i: int|
            0 <= i < outcomes.len() && #[trigger] outcomes[i] && publish_action(
                publish_run(outcomes.take(i)),
            ) == PublishAction::TryPublish,
        forall|i: int|
            0 <= i < outcomes.len() && #[trigger] outcomes[i] && publish_action(
                publish_run(outcomes.take(i)),
            ) == PublishAction::TryPublish ==> publish_run(outcomes) == (PublishStage::Finished {
                published: true,
            }),
    decreases outcomes.len(),
{
    lemma_publish_counts(outcomes);
    if outcomes.len() != 0 {
        let earlier = outcomes.drop_last();
        let stage = publish_run(earlier);
        law_publish_retries_once(earlier);
        assert forall|i: int|
            0 <= i < outcomes.len() && #[trigger] outcomes[i] && publish_action(
                publish_run(outcomes.take(i)),
            ) == PublishAction::TryPublish implies publish_run(outcomes) == (
        PublishStage::Finished { published: true }) by {
            if i < earlier.len() {
                assert(earlier.take(i) =~= outcomes.take(i));
                assert(earlier[i]);
            } else {
                assert(outcomes.take(i) =~= earlier);
            }
        }
        if publish_run(outcomes) == (PublishStage::Finished { published: true }) {
            if stage is Finished {
                let i = choose|i: int|
                    0 <= i < earlier.len() && #[trigger] earlier[i] && publish_action(
                        publish_run(earlier.take(i)),
                    ) == PublishAction::TryPublish;
                assert(earlier.take(i) =~= outcomes.take(i));
                assert(outcomes[i]);
            } else {
                assert(outcomes.take(outcomes.len() - 1) =~= earlier);
                assert(outcomes[outcomes.len() - 1]);
            }
        }
    }
}

proof fn lemma_publish_counts(outcomes: Seq<bool>)
    ensures
        ({
            let tries = times_asked(outcomes, PublishAction::TryPublish);
            let opened = times_asked(outcomes, PublishAction::Reopen);
            match publish_run(outcomes) {
                PublishStage::First => outcomes.len() == 0 && tries == 0 && opened == 0,
                PublishStage::Inspecting => outcomes.len() == 1 && tries == 1 && opened == 0,
                PublishStage::Reopening => outcomes.len() == 2 && tries == 1 && opened == 0,
                PublishStage::Second => outcomes.len() <= 3 && tries == 1 && opened <= 1,
                PublishStage::Finished { .. } => outcomes.len() >= 1 && tries <= 2 && opened <= 1,
            }
        }),
    decreases outcomes.len(),
{
    if outcomes.len() != 0 {
        lemma_publish_counts(outcomes.drop_last());
    }
}

proof fn lemma_filter_places(
    list: Seq<Seq<char>>,
    pred: spec_fn(Seq<char>) -> bool,
    a: int,
    b: int,
) -> (places: (int, int))
    requires
        0 <= a < b < list.filter(pred).len(),
    ensures
        0 <= places.0 < places.1 < list.len(),
        list[places.0] == list.filter(pred)[a],
        list[places.1] == list.filter(pred)[b],
    decreases list.len(),
{
    reveal(Seq::filter);
    let rest = list.drop_last();
    if b < rest.filter(pred).len() {
        let places = lemma_filter_places(rest, pred, a, b);
        assert(list[places.0] == rest[places.0] && list[places.1] == rest[places.1]);
        places
    } else {
        let one = rest.filter(pred)[a];
        assert(rest.filter(pred).contains(one));
        lemma_filter_place(rest, pred, one);
        let place = rest.index_of(one);
        assert(list[place] == one);
        (place, list.len() - 1)
    }
}

proof fn lemma_filter_place(list: Seq<Seq<char>>, pred: spec_fn(Seq<char>) -> bool, one: Seq<char>)
    requires
        list.filter(pred).contains(one),
    ensures
        list.contains(one),
    decreases list.len(),
{
    reveal(Seq::filter);
    if list.len() != 0 {
        let rest = list.drop_last();
        if rest.filter(pred).contains(one) {
            lemma_filter_place(rest, pred, one);
            assert(list[rest.index_of(one)] == one);
        } else {
            assert(list[list.len() - 1] == one);
        }
    }
}

/// A user is told exactly if they are one of the recipients and not online, and nobody twice.
pub proof fn law_recipients_that_are_away_are_told(
    recipients: &Vec<String>,
    online: &Vec<String>,
    result: Vec<String>,
    id: Seq<char>,
    i: int,
    j: int,
)
    requires
        call_ensures(offline, (recipients, online), result),
    ensures
        texts(result@).contains(id) <==> texts(recipients@).contains(id) && !texts(
            online@,
        ).contains(id),
        0 <= i < j < result@.len() ==> result@[i]@ != result@[j]@,
{
    law_only_offline_recipients_are_told(texts(recipients@), texts(online@));
    assert(texts(result@).contains(id) <==> offline_of(
        texts(recipients@),
        texts(online@),
    ).contains(id));
    if 0 <= i < j < result@.len() {
        assert(texts(result@)[i] == result@[i]@);
        assert(texts(result@)[j] == result@[j]@);
    }
}

/// Those told stand in the order in which they were first named.
pub proof fn law_told_in_the_order_of_recipients(
    recipients: &Vec<String>,
    online: &Vec<String>,
    result: Vec<String>,
    i: int,
    j: int,
    at: int,
)
    requires
        call_ensures(offline, (recipients, online), result),
        0 <= i < j < result@.len(),
        0 <= at < recipients@.len(),
        recipients@[at]@ == result@[j]@,
    ensures
        exists|earlier: int| 0 <= earlier < at && (#[trigger] recipients@[earlier])@ == result@[i]@,
{
    let all = texts(recipients@);
    let away = |id: Seq<char>| !texts(online@).contains(id);
    assert(texts(result@)[i] == result@[i]@);
    assert(texts(result@)[j] == result@[j]@);
    assert(texts(result@) == distinct_of(all).filter(away));
    let places = lemma_filter_places(distinct_of(all), away, i, j);
    assert(all[at] == recipients@[at]@);
    crate::text::lemma_distinct_order(all, places.0, places.1, at);
    let earlier = choose|earlier: int|
        0 <= earlier < at && #[trigger] all[earlier] == distinct_of(all)[places.0];
    assert(all[earlier] == recipients@[earlier]@);
}

/// A message without recipients is nobody's; any other waits, with all of them, until it is known
/// who is online, and is then addressed to those that are not.
pub proof fn law_message_is_addressed_to_those_away<N>(
    amqp: &AMQP,
    recipients: Vec<String>,
    notification: N,
    pending: Option<PendingMessage<N>>,
    online: &Vec<String>,
    publication: Publication<MessageSentPayload<N>>,
    away: Vec<String>,
)
    requires
        call_ensures(AMQP::message_sent::<N>, (amqp, recipients, notification), pending),
        pending is Some ==> call_ensures(
            AMQP::address::<N>,
            (amqp, pending->0, online),
            publication,
        ),
        call_ensures(offline, (&recipients, online), away),
    ensures
        pending is None <==> recipients@.len() == 0,
        pending is Some ==> {
            &&& publication.exchange@ == amqp.pushd.exchange@
            &&& publication.routing_key@ == amqp.pushd.message_routing_key@
            &&& publication.payload.notification == notification
            &&& texts(publication.payload.users@) == texts(away@)
        },
{
}

/// A friend request is told of on the exchange of the push daemon, with its own routing key: to
/// its sender that it was accepted and by whom, to its receiver who sent it.
pub proof fn law_friend_requests_are_told_of<U>(
    amqp: &AMQP,
    other: U,
    user_id: &String,
    accepted: Publication<FRAcceptedPayload<U>>,
    received: Publication<FRReceivedPayload<U>>,
)
    requires
        call_ensures(AMQP::friend_request_accepted::<U>, (amqp, other, user_id), accepted),
        call_ensures(AMQP::friend_request_received::<U>, (amqp, user_id, other), received),
    ensures
        accepted.exchange@ == amqp.pushd.exchange@,
        accepted.routing_key@ == amqp.pushd.fr_accepted_routing_key@,
        accepted.payload.accepted_user == other,
        accepted.payload.user@ == user_id@,
        received.exchange@ == amqp.pushd.exchange@,
        received.routing_key@ == amqp.pushd.fr_received_routing_key@,
        received.payload.from_user == other,
        received.payload.user@ == user_id@,
{
}

/// A notification with a text of its own carries the text, and goes out with its own routing key.
pub proof fn law_generic_notification_is_sent_as_given<U>(
    amqp: &AMQP,
    user: U,
    title: String,
    body: String,
    icon: Option<String>,
    result: Publication<GenericPayload<U>>,
)
    requires
        call_ensures(AMQP::generic_message::<U>, (amqp, user, title, body, icon), result),
    ensures
        result.exchange@ == amqp.pushd.exchange@,
        result.routing_key@ == amqp.pushd.generic_routing_key@,
        result.payload.title@ == title@,
        result.payload.body@ == body@,
        result.payload.icon == icon,
        result.payload.user == user,
{
}

/// Messages that mention many go out together, for their server.
pub proof fn law_mass_mention_is_sent_as_given<N>(
    amqp: &AMQP,
    server_id: String,
    payload: Vec<N>,
    result: Publication<MassMessageSentPayload<N>>,
)
    requires
        call_ensures(AMQP::mass_mention_message_sent::<N>, (amqp, server_id, payload), result),
    ensures
        result.exchange@ == amqp.pushd.exchange@,
        result.routing_key@ == amqp.pushd.mass_mention_routing_key@,
        result.payload.notifications@ == payload@,
        result.payload.server_id@ == server_id@,
{
}

/// What a user has read is told to the push daemon, straight to its queue for it.
pub proof fn law_badges_follow_what_was_read(
    amqp: &AMQP,
    user_id: String,
    channel_id: String,
    message_id: String,
    result: Publication<AckPayload>,
)
    requires
        call_ensures(
            AMQP::ack_notification_message,
            (amqp, user_id, channel_id, message_id),
            result,
        ),
    ensures
        result.exchange@ == amqp.pushd.exchange@,
        result.routing_key@ == amqp.pushd.ack_queue@,
        result.payload.user_id@ == user_id@,
        result.payload.channel_id@ == channel_id@,
        result.payload.message_id@ == message_id@,
{
}

/// That a call rings, or rings no longer, is told to the recipients named.
pub proof fn law_calls_ring_for_their_recipients(
    amqp: &AMQP,
    initiator_id: &String,
    channel_id: &String,
    started_at: &Option<String>,
    ended: bool,
    recipients: Option<Vec<String>>,
    result: Publication<InternalDmCallPayload>,
)
    requires
        call_ensures(
            AMQP::dm_call_updated,
            (amqp, initiator_id, channel_id, started_at, ended, recipients),
            result,
        ),
    ensures
        result.exchange@ == amqp.pushd.exchange@,
        result.routing_key@ == amqp.pushd.dm_call_routing_key@,
        result.payload.recipients == recipients,
        result.payload.payload.initiator_id@ == initiator_id@,
        result.payload.payload.channel_id@ == channel_id@,
        result.payload.payload.started_at == *started_at,
        result.payload.payload.ended == ended,
{
}

/// Acknowledgements are handed on by the broker's default exchange, to the queue for them.
pub proof fn law_acknowledgements_go_to_their_queue(
    amqp: &AMQP,
    user_id: &String,
    channel_id: &Option<String>,
    server_id: &Option<String>,
    result: Publication<AckEventPayload>,
)
    requires
        call_ensures(AMQP::process_ack, (amqp, user_id, channel_id, server_id), result),
    ensures
        result.exchange@ == amqp.rabbit.default_exchange@,
        result.routing_key@ == amqp.rabbit.acks_queue@,
        result.payload.user_id@ == user_id@,
        result.payload.channel_id == *channel_id,
        result.payload.server_id == *server_id,
{
}

/// The first failure at a start is followed by a wait of one second; each wait is twice as long as
/// the one before it, and none is longer than half a minute.
pub proof fn law_startup_waits_double(
    startup: &mut Startup,
    seconds: u64,
    later: &mut Startup,
    seconds_later: u64,
    fresh: Startup,
)
    requires
        call_ensures(AMQP::new_auto, (), fresh),
        old(startup).backoff <= 30,
        call_ensures(Startup::failed, (startup,), seconds),
        *old(later) == *final(startup),
        call_ensures(Startup::failed, (later,), seconds_later),
    ensures
        *old(startup) == fresh ==> seconds == 1,
        2 * seconds <= 30 ==> seconds_later == 2 * seconds,
        2 * seconds > 30 ==> seconds_later == 30,
{
}

/// A message is published at the first attempt; if that fails the connection is looked at, opened
/// anew only where it is gone, and the message tried once more. Then it is over.
pub proof fn law_message_is_tried_again_once(publish: &mut Publish, well: bool)
    requires
        call_ensures(Publish::advance, (publish, well), ()),
    ensures
        old(publish).stage is First && well ==> final(publish).stage == (PublishStage::Finished {
            published: true,
        }),
        old(publish).stage is First && !well ==> final(publish).stage is Inspecting,
        old(publish).stage is Inspecting && well ==> final(publish).stage is Second,
        old(publish).stage is Inspecting && !well ==> final(publish).stage is Reopening,
        old(publish).stage is Reopening && well ==> final(publish).stage is Second,
        old(publish).stage is Reopening && !well ==> final(publish).stage == (
        PublishStage::Finished { published: false }),
        old(publish).stage is Second ==> final(publish).stage == (PublishStage::Finished {
            published: well,
        }),
        old(publish).stage is Finished ==> final(publish).stage == old(publish).stage,
{
}

/// What is asked for is what the stage is about, and nothing more once it is over.
pub proof fn law_each_stage_asks_for_its_own(
    fresh: Publish,
    publish: &Publish,
    action: PublishAction,
)
    requires
        call_ensures(Publish::new, (), fresh),
        call_ensures(Publish::action, (publish,), action),
    ensures
        fresh.stage is First,
        action is TryPublish <==> publish.stage is First || publish.stage is Second,
        action is Inspect <==> publish.stage is Inspecting,
        action is Reopen <==> publish.stage is Reopening,
        action is Finish <==> publish.stage is Finished,
        action is Finish ==> action->published == publish.stage->published,
{
}

/// A publisher goes by the configuration that it was given.
pub proof fn law_publisher_goes_by_its_configuration(
    pushd: PushdConfig,
    rabbit: RabbitConfig,
    amqp: AMQP,
)
    requires
        call_ensures(AMQP::new, (pushd, rabbit), amqp),
    ensures
        amqp.pushd == pushd,
        amqp.rabbit == rabbit,
{
}

} // verus!
