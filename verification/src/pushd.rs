use vstd::prelude::*;

use crate::rabbit::{lengthened, next_backoff, INITIAL_BACKOFF};
use crate::text::join;

verus! {

/// A connection that lived this many seconds counts as stable: the next wait starts over.
pub const STABLE_CONNECTION_THRESHOLD: u64 = 30;

/// Seconds between two looks at the state of the connection.
pub const HEALTH_CHECK_INTERVAL: u64 = 5;

/// The queue of one outbound service and the credential without which it is not started.
#[derive(Debug, PartialEq, Eq)]
pub struct ServiceConfig {
    pub queue: String,
    /// Signing key, token address or public key; empty if the service is not set up
    pub credential: String,
}

/// What the push daemon listens to.
#[derive(Debug, PartialEq, Eq)]
pub struct PushdConfig {
    /// Whether this is the production instance; its queues are kept apart from the test ones
    pub production: bool,
    pub exchange: String,
    pub generic_queue: String,
    pub generic_routing_key: String,
    pub message_queue: String,
    pub message_routing_key: String,
    pub fr_received_queue: String,
    pub fr_received_routing_key: String,
    pub fr_accepted_queue: String,
    pub fr_accepted_routing_key: String,
    pub mass_mention_queue: String,
    pub mass_mention_routing_key: String,
    pub dm_call_queue: String,
    pub dm_call_routing_key: String,
    pub ack_queue: String,
    /// Apple's service, set up if it has a signing key
    pub apn: ServiceConfig,
    /// Google's service, set up if it has a token address
    pub fcm: ServiceConfig,
    /// Web push, set up if it has a public key
    pub vapid: ServiceConfig,
}

/// What handles the messages of a queue.
#[derive(Debug, Clone, Copy, PartialEq, Eq, Structural)]
pub enum ConsumerKind {
    Generic,
    Message,
    FriendRequestReceived,
    FriendRequestAccepted,
    MassMessage,
    DmCall,
    ApnsOutbound,
    Ack,
    FcmOutbound,
    VapidOutbound,
}

/// A consumer to be started.
#[derive(Debug, PartialEq, Eq)]
pub struct ConsumerPlan {
    pub kind: ConsumerKind,
    /// Name of the queue, without the suffix of the instance
    pub queue: String,
    pub routing_key: String,
    /// Whether the broker drops messages that it has seen
    pub deduplicate: bool,
}

#[verifier::ext_equal]
pub struct PlanView {
    pub kind: ConsumerKind,
    pub queue: Seq<char>,
    pub routing_key: Seq<char>,
    pub deduplicate: bool,
}

impl View for ConsumerPlan {
    type V = PlanView;

    open spec fn view(&self) -> PlanView {
        PlanView {
            kind: self.kind,
            queue: self.queue@,
            routing_key: self.routing_key@,
            deduplicate: self.deduplicate,
        }
    }
}

/// A consumer of the messages that come under a routing key.
pub open spec fn listening(kind: ConsumerKind, queue: String, routing_key: String) -> PlanView {
    PlanView { kind, queue: queue@, routing_key: routing_key@, deduplicate: false }
}

/// The inbound consumers, which every instance starts.
pub open spec fn inbound(config: PushdConfig) -> Seq<PlanView> {
    seq![
        listening(ConsumerKind::Generic, config.generic_queue, config.generic_routing_key),
        listening(ConsumerKind::Message, config.message_queue, config.message_routing_key),
        listening(
            ConsumerKind::FriendRequestReceived,
            config.fr_received_queue,
            config.fr_received_routing_key,
        ),
        listening(
            ConsumerKind::FriendRequestAccepted,
            config.fr_accepted_queue,
            config.fr_accepted_routing_key,
        ),
        listening(
            ConsumerKind::MassMessage,
            config.mass_mention_queue,
            config.mass_mention_routing_key,
        ),
        listening(ConsumerKind::DmCall, config.dm_call_queue, config.dm_call_routing_key),
    ]
}

/// Apple's service and the acknowledgements that its badges need, if it is set up. The
/// outbound queues are routed by their own names, so that they receive from every instance.
pub open spec fn apple(config: PushdConfig) -> Seq<PlanView> {
    if config.apn.credential@.len() == 0 {
        Seq::empty()
    } else {
        seq![
            listening(ConsumerKind::ApnsOutbound, config.apn.queue, config.apn.queue),
            PlanView {
                deduplicate: true,
                ..listening(ConsumerKind::Ack, config.ack_queue, config.ack_queue)
            },
        ]
    }
}

/// The consumer of an outbound service, if it is set up.
pub open spec fn outbound(kind: ConsumerKind, service: ServiceConfig) -> Seq<PlanView> {
    if service.credential@.len() == 0 {
        Seq::empty()
    } else {
        seq![listening(kind, service.queue, service.queue)]
    }
}

/// Every consumer that an instance starts, in order.
pub open spec fn planned(config: PushdConfig) -> Seq<PlanView> {
    inbound(config) + apple(config) + outbound(ConsumerKind::FcmOutbound, config.fcm) + outbound(
        ConsumerKind::VapidOutbound,
        config.vapid,
    )
}

/// What the plans of a list say.
pub open spec fn plans(list: Seq<ConsumerPlan>) -> Seq<PlanView> {
    list.map_values(|plan: ConsumerPlan| plan@)
}

fn listen(kind: ConsumerKind, queue: &String, routing_key: &String) -> (plan: ConsumerPlan)
    ensures
        plan@ == listening(kind, *queue, *routing_key),
{
    ConsumerPlan { kind, queue: queue.clone(), routing_key: routing_key.clone(), deduplicate: false }
}

/// A step of declaring a queue and consuming from it. A message counts as delivered once it
/// was sent (`no_ack`), and what is declared outlives the broker (`durable`).
#[derive(Debug, PartialEq, Eq)]
pub enum ChannelCommand {
    DeclareExchange { exchange: String, durable: bool },
    DeclareQueue { queue: String, durable: bool, deduplicate: bool },
    BindQueue { queue: String, exchange: String, routing_key: String },
    Consume { queue: String, no_ack: bool },
}

/// The name of a queue on an instance.
pub open spec fn instance_queue(queue: Seq<char>, production: bool) -> Seq<char> {
    if production {
        queue + "-prd"@
    } else {
        queue + "-tst"@
    }
}

/// The name of a queue on this instance.
pub fn queue_name(queue: &str, production: bool) -> (name: String)
    ensures
        name@ == instance_queue(queue@, production),
{
    if production {
        join(queue, "-prd")
    } else {
        join(queue, "-tst")
    }
}

impl PushdConfig {
    /// The consumers to start on a fresh connection.
    pub fn consumers(&self) -> (result: Vec<ConsumerPlan>)
        ensures
            plans(result@) == planned(*self),
    {
        let mut result: Vec<ConsumerPlan> = vec![
            listen(ConsumerKind::Generic, &self.generic_queue, &self.generic_routing_key),
            listen(ConsumerKind::Message, &self.message_queue, &self.message_routing_key),
            listen(
                ConsumerKind::FriendRequestReceived,
                &self.fr_received_queue,
                &self.fr_received_routing_key,
            ),
            listen(
                ConsumerKind::FriendRequestAccepted,
                &self.fr_accepted_queue,
                &self.fr_accepted_routing_key,
            ),
            listen(
                ConsumerKind::MassMessage,
                &self.mass_mention_queue,
                &self.mass_mention_routing_key,
            ),
            listen(ConsumerKind::DmCall, &self.dm_call_queue, &self.dm_call_routing_key),
        ];
        assert(plans(result@) =~= inbound(*self));
        if !self.apn.credential.as_str().is_empty() {
            result.push(listen(ConsumerKind::ApnsOutbound, &self.apn.queue, &self.apn.queue));
            let mut acks = listen(ConsumerKind::Ack, &self.ack_queue, &self.ack_queue);
            acks.deduplicate = true;
            result.push(acks);
        }
        assert(plans(result@) =~= inbound(*self) + apple(*self));
        if !self.fcm.credential.as_str().is_empty() {
            result.push(listen(ConsumerKind::FcmOutbound, &self.fcm.queue, &self.fcm.queue));
        }
        assert(plans(result@) =~= inbound(*self) + apple(*self) + outbound(
            ConsumerKind::FcmOutbound,
            self.fcm,
        ));
        if !self.vapid.credential.as_str().is_empty() {
            result.push(listen(ConsumerKind::VapidOutbound, &self.vapid.queue, &self.vapid.queue));
        }
        assert(plans(result@) =~= planned(*self));
        result
    }

    /// What to ask of a channel so that the messages of a plan come in, step by step: the
    /// exchange, the queue of this instance, the binding of the two, and the consumer.
    pub fn channel_commands(&self, plan: &ConsumerPlan) -> (result: Vec<ChannelCommand>)
        ensures
            result@.len() == 4,
            ({
                let queue = instance_queue(plan.queue@, self.production);
                &&& result@[0] == (ChannelCommand::DeclareExchange {
                    exchange: self.exchange,
                    durable: true,
                })
                &&& result@[1] matches ChannelCommand::DeclareQueue {
                    queue: declared,
                    durable,
                    deduplicate,
                } && declared@ == queue && durable && deduplicate == plan.deduplicate
                &&& result@[2] matches ChannelCommand::BindQueue {
                    queue: bound,
                    exchange,
                    routing_key,
                } && bound@ == queue && exchange == self.exchange && routing_key
                    == plan.routing_key
                &&& result@[3] matches ChannelCommand::Consume { queue: consumed, no_ack }
                    && consumed@ == queue && no_ack
            }),
    {
        let queue = queue_name(plan.queue.as_str(), self.production);
        vec![
            ChannelCommand::DeclareExchange { exchange: self.exchange.clone(), durable: true },
            ChannelCommand::DeclareQueue {
                queue: queue.clone(),
                durable: true,
                deduplicate: plan.deduplicate,
            },
            ChannelCommand::BindQueue {
                queue: queue.clone(),
                exchange: self.exchange.clone(),
                routing_key: plan.routing_key.clone(),
            },
            ChannelCommand::Consume { queue, no_ack: true },
        ]
    }
}

/// Every instance listens to the six inbound queues, whatever services are set up; an
/// outbound service is listened for exactly if it is set up; and only the acknowledgements,
/// which come with Apple's service, are deduplicated.
pub proof fn law_consumers_follow_the_setup(config: PushdConfig)
    ensures
        planned(config).len() >= 6,
        planned(config).take(6) == inbound(config),
        (exists|i: int|
            0 <= i < planned(config).len() && (#[trigger] planned(config)[i]).kind
                == ConsumerKind::ApnsOutbound) <==> config.apn.credential@.len() != 0,
        (exists|i: int|
            0 <= i < planned(config).len() && (#[trigger] planned(config)[i]).kind
                == ConsumerKind::FcmOutbound) <==> config.fcm.credential@.len() != 0,
        (exists|i: int|
            0 <= i < planned(config).len() && (#[trigger] planned(config)[i]).kind
                == ConsumerKind::VapidOutbound) <==> config.vapid.credential@.len() != 0,
        forall|i: int|
            0 <= i < planned(config).len() ==> ((#[trigger] planned(config)[i]).deduplicate
                <==> planned(config)[i].kind == ConsumerKind::Ack),
{
    let all = planned(config);
    assert(all.take(6) =~= inbound(config));
    let apple_end = 6 + apple(config).len() as int;
    let fcm = outbound(ConsumerKind::FcmOutbound, config.fcm);
    if config.apn.credential@.len() != 0 {
        assert(all[6] == apple(config)[0]);
    }
    if config.fcm.credential@.len() != 0 {
        assert(all[apple_end] == fcm[0]);
    }
    if config.vapid.credential@.len() != 0 {
        assert(all[apple_end + fcm.len()] == outbound(
            ConsumerKind::VapidOutbound,
            config.vapid,
        )[0]);
    }
}

/// The two kinds of instance share no queue.
pub proof fn law_instances_keep_apart(queue: Seq<char>, other: Seq<char>)
    ensures
        instance_queue(queue, true) != instance_queue(other, false),
{
    reveal_strlit("-prd");
    reveal_strlit("-tst");
    assert("-prd"@.len() == 4 && "-tst"@.len() == 4);
    assert(instance_queue(queue, true).last() == 'd');
    assert(instance_queue(other, false).last() == 't');
}

/// Where the push daemon stands between two things that happen to it.
#[derive(Debug, Clone, Copy, PartialEq, Eq, Structural)]
pub enum Phase {
    /// A connection is being opened and the consumers declared
    Connecting,
    /// Waiting before the next attempt
    Waiting,
    /// Messages come in
    Consuming,
    /// The daemon ends
    Stopped,
}

/// What happens to the push daemon.
#[derive(Debug, Clone, Copy, PartialEq, Eq, Structural)]
pub enum Event {
    /// It was told to stop
    Interrupted,
    /// The connection stands and every consumer is declared
    Connected,
    /// The connection or a consumer failed
    ConnectFailed,
    /// The wait that was asked for is over
    Waited,
    /// The connection was looked at, so many seconds after it was begun to be opened
    Checked { connected: bool, seconds: u64 },
}

/// What the push daemon does next.
#[derive(Debug, Clone, Copy, PartialEq, Eq, Structural)]
pub enum Action {
    /// Open a connection and declare every consumer
    Connect,
    /// Wait so many seconds, unless told to stop
    Wait { seconds: u64 },
    /// Wait so many seconds, unless told to stop, then look at the connection
    Check { seconds: u64 },
    /// Close every channel and end
    CloseAndStop,
    /// End
    Stop,
}

/// The reconnect loop of the push daemon. The broker connection does not recover on its own,
/// so a lost one is opened again, with every consumer.
#[derive(Debug, Clone, Copy, PartialEq, Eq, Structural)]
pub struct Reconnect {
    pub phase: Phase,
    /// Seconds to wait after the next failure
    pub backoff: u64,
}

/// The loop before anything has happened.
pub open spec fn starting() -> Reconnect {
    Reconnect { phase: Phase::Connecting, backoff: INITIAL_BACKOFF }
}

/// The wait after a connection was lost that had been begun so many seconds ago.
pub open spec fn backoff_after_loss(backoff: u64, seconds: u64) -> u64 {
    if seconds >= STABLE_CONNECTION_THRESHOLD {
        INITIAL_BACKOFF
    } else {
        lengthened(backoff as int) as u64
    }
}

/// The loop after an event, and what it does then. What does not belong to a phase leaves it
/// as it is and repeats what the phase waits for.
pub open spec fn reaction(state: Reconnect, event: Event) -> (Reconnect, Action) {
    match (state.phase, event) {
        (Phase::Stopped, _) => (state, Action::Stop),
        (Phase::Consuming, Event::Interrupted) => (
            Reconnect { phase: Phase::Stopped, ..state },
            Action::CloseAndStop,
        ),
        (_, Event::Interrupted) => (Reconnect { phase: Phase::Stopped, ..state }, Action::Stop),
        (Phase::Connecting, Event::Connected) => (
            Reconnect { phase: Phase::Consuming, ..state },
            Action::Check { seconds: HEALTH_CHECK_INTERVAL },
        ),
        (Phase::Connecting, Event::ConnectFailed) => (
            Reconnect {
                phase: Phase::Waiting,
                backoff: lengthened(state.backoff as int) as u64,
            },
            Action::Wait { seconds: state.backoff },
        ),
        (Phase::Connecting, _) => (state, Action::Connect),
        (Phase::Waiting, Event::Waited) => (
            Reconnect { phase: Phase::Connecting, ..state },
            Action::Connect,
        ),
        (Phase::Waiting, _) => (state, Action::Wait { seconds: state.backoff }),
        (Phase::Consuming, Event::Checked { connected: false, seconds }) => (
            Reconnect {
                phase: Phase::Connecting,
                backoff: backoff_after_loss(state.backoff, seconds),
            },
            Action::Connect,
        ),
        (Phase::Consuming, _) => (state, Action::Check { seconds: HEALTH_CHECK_INTERVAL }),
    }
}

impl Reconnect {
    /// The loop before anything has happened; the first thing to do is to connect.
    pub fn new() -> (state: Reconnect)
        ensures
            state == starting(),
    {
        Reconnect { phase: Phase::Connecting, backoff: INITIAL_BACKOFF }
    }

    /// Take up an event and say what to do.
    pub fn on(&mut self, event: Event) -> (action: Action)
        ensures
            (*final(self), action) == reaction(*old(self), event),
    {
        match (self.phase, event) {
            (Phase::Stopped, _) => Action::Stop,
            (Phase::Consuming, Event::Interrupted) => {
                self.phase = Phase::Stopped;
                Action::CloseAndStop
            },
            (_, Event::Interrupted) => {
                self.phase = Phase::Stopped;
                Action::Stop
            },
            (Phase::Connecting, Event::Connected) => {
                self.phase = Phase::Consuming;
                Action::Check { seconds: HEALTH_CHECK_INTERVAL }
            },
            (Phase::Connecting, Event::ConnectFailed) => {
                let seconds: u64 = self.backoff;
                self.phase = Phase::Waiting;
                self.backoff = next_backoff(seconds);
                Action::Wait { seconds }
            },
            (Phase::Connecting, _) => Action::Connect,
            (Phase::Waiting, Event::Waited) => {
                self.phase = Phase::Connecting;
                Action::Connect
            },
            (Phase::Waiting, _) => Action::Wait { seconds: self.backoff },
            (Phase::Consuming, Event::Checked { connected: false, seconds }) => {
                self.phase = Phase::Connecting;
                self.backoff = if seconds >= STABLE_CONNECTION_THRESHOLD {
                    INITIAL_BACKOFF
                } else {
                    next_backoff(self.backoff)
                };
                Action::Connect
            },
            (Phase::Consuming, _) => Action::Check { seconds: HEALTH_CHECK_INTERVAL },
        }
    }
}

/// The loop after a run of events.
pub open spec fn lived_through(state: Reconnect, events: Seq<Event>) -> Reconnect
    decreases events.len(),
{
    if events.len() == 0 {
        state
    } else {
        reaction(lived_through(state, events.drop_last()), events.last()).0
    }
}

/// Whatever happens, the daemon gives up only if it is told to stop, and its wait stays
/// between the shortest and the longest one.
pub proof fn law_daemon_gives_up_only_when_told(events: Seq<Event>)
    ensures
        INITIAL_BACKOFF <= lived_through(starting(), events).backoff
            <= crate::rabbit::MAX_BACKOFF,
        lived_through(starting(), events).phase == Phase::Stopped <==> events.contains(
            Event::Interrupted,
        ),
    decreases events.len(),
{
    if events.len() != 0 {
        let earlier = events.drop_last();
        law_daemon_gives_up_only_when_told(earlier);
        assert(events =~= earlier.push(events.last()));
        if earlier.contains(Event::Interrupted) {
            let i = earlier.index_of(Event::Interrupted);
            assert(events[i] == Event::Interrupted);
        }
        if events.last() == Event::Interrupted {
            assert(events[events.len() - 1] == Event::Interrupted);
        }
    }
}

/// A lost connection is always followed by another attempt to connect, at once; and one that
/// was stable starts the wait over.
pub proof fn law_lost_connection_is_reopened(state: Reconnect, seconds: u64)
    requires
        state.phase == Phase::Consuming,
    ensures
        ({
            let (next, action) = reaction(state, Event::Checked { connected: false, seconds });
            &&& action == Action::Connect
            &&& next.phase == Phase::Connecting
            &&& seconds >= STABLE_CONNECTION_THRESHOLD ==> next.backoff == INITIAL_BACKOFF
        }),
{
}

/// The name of a queue says on which kind of instance it is.
pub proof fn law_queue_is_named_after_its_instance(queue: &str, production: bool, name: String)
    requires
        call_ensures(queue_name, (queue, production), name),
    ensures
        production ==> name@ == queue@ + "-prd"@,
        !production ==> name@ == queue@ + "-tst"@,
{
}

/// Every queue is consumed by what it is for, under the routing key that is configured for it:
/// the inbound ones come first and always; then Apple's and the acknowledgements, Google's and
/// web push, each exactly if it has a credential, and each under its own name.
pub proof fn law_consumers_listen_where_configured(config: &PushdConfig, result: Vec<ConsumerPlan>)
    requires
        call_ensures(PushdConfig::consumers, (config,), result),
    ensures
        ({
            let apple: int = if config.apn.credential@.len() == 0 { 0 } else { 2 };
            let google: int = if config.fcm.credential@.len() == 0 { 0 } else { 1 };
            let web: int = if config.vapid.credential@.len() == 0 { 0 } else { 1 };
            &&& result@.len() == 6 + apple + google + web
            &&& result@[0].kind == ConsumerKind::Generic
            &&& result@[0].queue@ == config.generic_queue@
            &&& result@[0].routing_key@ == config.generic_routing_key@
            &&& result@[1].kind == ConsumerKind::Message
            &&& result@[1].queue@ == config.message_queue@
            &&& result@[1].routing_key@ == config.message_routing_key@
            &&& result@[2].kind == ConsumerKind::FriendRequestReceived
            &&& result@[2].queue@ == config.fr_received_queue@
            &&& result@[2].routing_key@ == config.fr_received_routing_key@
            &&& result@[3].kind == ConsumerKind::FriendRequestAccepted
            &&& result@[3].queue@ == config.fr_accepted_queue@
            &&& result@[3].routing_key@ == config.fr_accepted_routing_key@
            &&& result@[4].kind == ConsumerKind::MassMessage
            &&& result@[4].queue@ == config.mass_mention_queue@
            &&& result@[4].routing_key@ == config.mass_mention_routing_key@
            &&& result@[5].kind == ConsumerKind::DmCall
            &&& result@[5].queue@ == config.dm_call_queue@
            &&& result@[5].routing_key@ == config.dm_call_routing_key@
            &&& apple == 2 ==> {
                &&& result@[6].kind == ConsumerKind::ApnsOutbound
                &&& result@[6].queue@ == config.apn.queue@
                &&& result@[6].routing_key@ == config.apn.queue@
                &&& result@[7].kind == ConsumerKind::Ack
                &&& result@[7].queue@ == config.ack_queue@
                &&& result@[7].routing_key@ == config.ack_queue@
            }
            &&& google == 1 ==> {
                &&& result@[6 + apple].kind == ConsumerKind::FcmOutbound
                &&& result@[6 + apple].queue@ == config.fcm.queue@
                &&& result@[6 + apple].routing_key@ == config.fcm.queue@
            }
            &&& web == 1 ==> {
                &&& result@[6 + apple + google].kind == ConsumerKind::VapidOutbound
                &&& result@[6 + apple + google].queue@ == config.vapid.queue@
                &&& result@[6 + apple + google].routing_key@ == config.vapid.queue@
            }
            &&& forall|i: int|
                0 <= i < result@.len() ==> (#[trigger] result@[i]).deduplicate == (apple == 2 && i
                    == 7)
        }),
{
    let all = plans(result@);
    assert(all.len() == result@.len());
    assert forall|i: int| 0 <= i < result@.len() implies (#[trigger] result@[i])@ == planned(
        *config,
    )[i] by {
        assert(all[i] == result@[i]@);
    }
    assert(result@[0]@ == planned(*config)[0]);
    assert(result@[5]@ == planned(*config)[5]);
}

/// What is declared is what is bound and what is consumed, under one name, on the exchange that
/// is configured; it outlives the broker, and a message counts as delivered once it was sent.
pub proof fn law_queue_is_declared_bound_and_consumed(
    config: &PushdConfig,
    plan: &ConsumerPlan,
    result: Vec<ChannelCommand>,
)
    requires
        call_ensures(PushdConfig::channel_commands, (config, plan), result),
    ensures
        ({
            let name = plan.queue@ + if config.production { "-prd"@ } else { "-tst"@ };
            &&& result@.len() == 4
            &&& result@[0] matches ChannelCommand::DeclareExchange { exchange, durable } && exchange@
                == config.exchange@ && durable
            &&& result@[1] matches ChannelCommand::DeclareQueue { queue, durable, deduplicate }
                && queue@ == name && durable && deduplicate == plan.deduplicate
            &&& result@[2] matches ChannelCommand::BindQueue { queue, exchange, routing_key }
                && queue@ == name && exchange@ == config.exchange@ && routing_key@
                == plan.routing_key@
            &&& result@[3] matches ChannelCommand::Consume { queue, no_ack } && queue@ == name
                && no_ack
        }),
{
}

/// The daemon begins by connecting, and its first wait is the shortest.
pub proof fn law_daemon_begins_by_connecting(state: Reconnect)
    requires
        call_ensures(Reconnect::new, (), state),
    ensures
        state.phase == Phase::Connecting,
        state.backoff == 1,
{
}

/// A connection that is up is left alone, however long it has lived: it is looked at again after
/// five seconds, and nothing else happens.
pub proof fn law_healthy_connection_is_kept(state: &mut Reconnect, seconds: u64, action: Action)
    requires
        call_ensures(Reconnect::on, (state, Event::Checked { connected: true, seconds }), action),
        old(state).phase == Phase::Consuming,
    ensures
        final(state).phase == Phase::Consuming,
        final(state).backoff == old(state).backoff,
        action == (Action::Check { seconds: 5 }),
{
}

/// A connection that was lost is opened again at once. After one that lived half a minute the
/// wait starts over; after a shorter one it doubles, up to half a minute.
pub proof fn law_lost_connection_is_opened_at_once(
    state: &mut Reconnect,
    seconds: u64,
    action: Action,
)
    requires
        call_ensures(Reconnect::on, (state, Event::Checked { connected: false, seconds }), action),
        old(state).phase == Phase::Consuming,
    ensures
        final(state).phase == Phase::Connecting,
        action == Action::Connect,
        seconds >= 30 ==> final(state).backoff == 1,
        seconds < 30 && old(state).backoff <= 15 ==> final(state).backoff == old(state).backoff
            + old(state).backoff,
        seconds < 30 && old(state).backoff > 15 ==> final(state).backoff == 30,
{
}

/// An attempt that failed is followed by the wait that was due, and the wait after the next
/// failure is twice as long, up to half a minute; the attempt after the wait follows at once.
pub proof fn law_failed_attempt_is_repeated(
    state: &mut Reconnect,
    action: Action,
    waited: &mut Reconnect,
    next: Action,
)
    requires
        call_ensures(Reconnect::on, (state, Event::ConnectFailed), action),
        old(state).phase == Phase::Connecting,
        *old(waited) == *final(state),
        call_ensures(Reconnect::on, (waited, Event::Waited), next),
    ensures
        action == (Action::Wait { seconds: old(state).backoff }),
        final(state).phase == Phase::Waiting,
        old(state).backoff <= 15 ==> final(state).backoff == old(state).backoff + old(
            state,
        ).backoff,
        old(state).backoff > 15 ==> final(state).backoff == 30,
        next == Action::Connect,
        final(waited).phase == Phase::Connecting,
        final(waited).backoff == final(state).backoff,
{
}

/// Once connected, the daemon consumes, and looks at the connection after five seconds. The wait
/// is not forgotten yet: the connection may not last.
pub proof fn law_connected_daemon_consumes(state: &mut Reconnect, action: Action)
    requires
        call_ensures(Reconnect::on, (state, Event::Connected), action),
        old(state).phase == Phase::Connecting,
    ensures
        final(state).phase == Phase::Consuming,
        final(state).backoff == old(state).backoff,
        action == (Action::Check { seconds: 5 }),
{
}

/// Told to stop, the daemon stops from wherever it stands, and closes its channels if it has any;
/// whatever comes after that, it stays stopped.
pub proof fn law_interrupted_daemon_stops(
    state: &mut Reconnect,
    action: Action,
    stopped: &mut Reconnect,
    event: Event,
    next: Action,
)
    requires
        call_ensures(Reconnect::on, (state, Event::Interrupted), action),
        *old(stopped) == *final(state),
        call_ensures(Reconnect::on, (stopped, event), next),
    ensures
        final(state).phase == Phase::Stopped,
        action == if old(state).phase == Phase::Consuming {
            Action::CloseAndStop
        } else {
            Action::Stop
        },
        final(stopped).phase == Phase::Stopped,
        next == Action::Stop,
{
}

/// What does not concern a phase changes nothing, and what the phase waits for is asked for again.
pub proof fn law_other_events_change_nothing(state: &mut Reconnect, event: Event, action: Action)
    requires
        call_ensures(Reconnect::on, (state, event), action),
        event != Event::Interrupted,
        match old(state).phase {
            Phase::Connecting => event != Event::Connected && event != Event::ConnectFailed,
            Phase::Waiting => event != Event::Waited,
            Phase::Consuming => !(event is Checked),
            Phase::Stopped => true,
        },
    ensures
        final(state).phase == old(state).phase,
        final(state).backoff == old(state).backoff,
        action == match old(state).phase {
            Phase::Connecting => Action::Connect,
            Phase::Waiting => Action::Wait { seconds: old(state).backoff },
            Phase::Consuming => Action::Check { seconds: 5 },
            Phase::Stopped => Action::Stop,
        },
{
}

} // verus!
