use vstd::prelude::*;

use crate::error::{database_error, is_database_error, Error};
use crate::model::{meets, meets_all, picks, shows, shows_one_of, Document};
use crate::mongo::{filters_by, filters_by_one_of, lemma_filters_by, lemma_filters_by_one_of};
use crate::query::{
    asks_for, both, copied, equals, lemma_plain_filter, meeting, one_of, only, reads, reads_one_of,
    Change, ChangeView, Condition, ConditionView, Filter, FilterView, Test, TestView, Value,
    ValueView,
};
use crate::text::texts;

verus! {

/// Version of the erasure policy that a pass is carried out under.
///
/// Bump this whenever the set of things that get erased changes. It is written into every
/// report, so an old report always says which rules it was produced under.
pub const ERASURE_POLICY_VERSION: &'static str = "1";

/// Author of system messages, and the stand-in for a user reference that has been erased out
/// of a record about somebody else.
pub const SYSTEM_USER_ID: &'static str = "00000000000000000000000000";

/// What an erasure pass removed: counts and no content.
#[derive(Debug, PartialEq, Eq)]
pub struct ErasureReport {
    /// User the pass was run against
    pub user_id: String,
    /// Policy version in force at the time
    pub policy_version: String,
    /// Attachments marked deleted, to be purged from storage by the file janitor
    pub attachments_marked: u64,
    /// Messages removed: theirs, those about them, and those that go with a private channel
    pub messages_deleted: u64,
    /// Direct message and saved-message channels removed
    pub channels_deleted: u64,
    /// Group channels the user was removed from
    pub groups_departed: u64,
    /// Server memberships removed
    pub memberships_deleted: u64,
    /// Unread markers removed
    pub unreads_deleted: u64,
    /// Channel invites they had created
    pub invites_deleted: u64,
    /// Bots they owned
    pub bots_deleted: u64,
    /// Other users whose relations listed them
    pub relations_pulled: u64,
    /// Sessions removed, those of their bots among them
    pub sessions_deleted: u64,
    /// System messages where they were named as the actor, scrubbed to the system sentinel
    pub system_references_scrubbed: u64,
    /// Attachments left in place because they are held for a safety review
    pub attachments_withheld_reported: u64,
}

/// What a report says.
#[verifier::ext_equal]
pub struct ReportView {
    pub user_id: Seq<char>,
    pub policy_version: Seq<char>,
    pub attachments_marked: int,
    pub messages_deleted: int,
    pub channels_deleted: int,
    pub groups_departed: int,
    pub memberships_deleted: int,
    pub unreads_deleted: int,
    pub invites_deleted: int,
    pub bots_deleted: int,
    pub relations_pulled: int,
    pub sessions_deleted: int,
    pub system_references_scrubbed: int,
    pub attachments_withheld_reported: int,
}

impl View for ErasureReport {
    type V = ReportView;

    open spec fn view(&self) -> ReportView {
        ReportView {
            user_id: self.user_id@,
            policy_version: self.policy_version@,
            attachments_marked: self.attachments_marked as int,
            messages_deleted: self.messages_deleted as int,
            channels_deleted: self.channels_deleted as int,
            groups_departed: self.groups_departed as int,
            memberships_deleted: self.memberships_deleted as int,
            unreads_deleted: self.unreads_deleted as int,
            invites_deleted: self.invites_deleted as int,
            bots_deleted: self.bots_deleted as int,
            relations_pulled: self.relations_pulled as int,
            sessions_deleted: self.sessions_deleted as int,
            system_references_scrubbed: self.system_references_scrubbed as int,
            attachments_withheld_reported: self.attachments_withheld_reported as int,
        }
    }
}

/// A report that has counted nothing yet.
pub open spec fn blank_report(user_id: Seq<char>, policy_version: Seq<char>) -> ReportView {
    ReportView {
        user_id,
        policy_version,
        attachments_marked: 0,
        messages_deleted: 0,
        channels_deleted: 0,
        groups_departed: 0,
        memberships_deleted: 0,
        unreads_deleted: 0,
        invites_deleted: 0,
        bots_deleted: 0,
        relations_pulled: 0,
        sessions_deleted: 0,
        system_references_scrubbed: 0,
        attachments_withheld_reported: 0,
    }
}

impl Default for ErasureReport {
    fn default() -> (report: Self)
        ensures
            report@ == blank_report(Seq::empty(), Seq::empty()),
    {
        ErasureReport {
            user_id: String::new(),
            policy_version: String::new(),
            attachments_marked: 0,
            messages_deleted: 0,
            channels_deleted: 0,
            groups_departed: 0,
            memberships_deleted: 0,
            unreads_deleted: 0,
            invites_deleted: 0,
            bots_deleted: 0,
            relations_pulled: 0,
            sessions_deleted: 0,
            system_references_scrubbed: 0,
            attachments_withheld_reported: 0,
        }
    }
}

/// A database operation that an erasure pass asks for.
#[derive(Debug, PartialEq, Eq)]
pub enum Command {
    /// The `_id` of every document that the filter picks
    ListIds { collection: String, filter: Filter },
    /// How many documents the filter picks
    Count { collection: String, filter: Filter },
    /// Delete every document that the filter picks, and say how many they were
    DeleteMany { collection: String, filter: Filter },
    /// Delete one document that the filter picks
    DeleteOne { collection: String, filter: Filter },
    /// Change every document that the filter picks, and say how many were modified
    UpdateMany { collection: String, filter: Filter, change: Change },
    /// Mark every attachment that the filter picks as deleted
    MarkAttachments { filter: Filter },
    /// Delete what hangs off channels that are gone: their invites, unread markers, webhooks
    DeleteChannelObjects { channels: Vec<String> },
}

pub enum CommandView {
    ListIds { collection: Seq<char>, filter: FilterView },
    Count { collection: Seq<char>, filter: FilterView },
    DeleteMany { collection: Seq<char>, filter: FilterView },
    DeleteOne { collection: Seq<char>, filter: FilterView },
    UpdateMany { collection: Seq<char>, filter: FilterView, change: ChangeView },
    MarkAttachments { filter: FilterView },
    DeleteChannelObjects { channels: Seq<Seq<char>> },
}

impl View for Command {
    type V = CommandView;

    open spec fn view(&self) -> CommandView {
        match self {
            Command::ListIds { collection, filter } => CommandView::ListIds {
                collection: collection@,
                filter: filter@,
            },
            Command::Count { collection, filter } => CommandView::Count {
                collection: collection@,
                filter: filter@,
            },
            Command::DeleteMany { collection, filter } => CommandView::DeleteMany {
                collection: collection@,
                filter: filter@,
            },
            Command::DeleteOne { collection, filter } => CommandView::DeleteOne {
                collection: collection@,
                filter: filter@,
            },
            Command::UpdateMany { collection, filter, change } => CommandView::UpdateMany {
                collection: collection@,
                filter: filter@,
                change: change@,
            },
            Command::MarkAttachments { filter } => CommandView::MarkAttachments {
                filter: filter@,
            },
            Command::DeleteChannelObjects { channels } => CommandView::DeleteChannelObjects {
                channels: texts(channels@),
            },
        }
    }
}

/// What the database answers to a command that succeeded.
#[derive(Debug, PartialEq, Eq)]
pub enum Reply {
    /// The ids that were asked for
    Ids(Vec<String>),
    /// How many documents were counted, deleted or modified
    Number(u64),
    /// Nothing that the pass records
    Done,
}

pub enum ReplyView {
    Ids(Seq<Seq<char>>),
    Number(int),
    Done,
}

impl View for Reply {
    type V = ReplyView;

    open spec fn view(&self) -> ReplyView {
        match self {
            Reply::Ids(ids) => ReplyView::Ids(texts(ids@)),
            Reply::Number(number) => ReplyView::Number(*number as int),
            Reply::Done => ReplyView::Done,
        }
    }
}

/// How far an erasure pass has come.
#[derive(Debug, Clone, Copy, PartialEq, Eq, Structural)]
pub enum Stage {
    ListMessages,
    CountWithheld,
    CountMarked,
    MarkAttachments,
    DeleteAuthored,
    DeleteAbout,
    ScrubBy,
    ScrubFrom,
    ScrubTo,
    ListPrivate,
    DeletePrivateMessages,
    DeletePrivateObjects,
    DeletePrivate,
    LeaveGroups,
    DeleteMemberships,
    DeleteUnreads,
    DeleteInvites,
    ReleaseInvites,
    ListBots,
    DeleteBotUsers,
    DeleteBotSessions,
    DeleteBots,
    PullRelations,
    DeleteSessions,
    DeleteUser,
    Finished,
}

/// An erasure pass over everything that belongs to one user.
///
/// Content first, identity last: every command is a bulk operation that does nothing the
/// second time it runs, and the user document is removed only at the very end, so a pass that
/// dies halfway is simply repeated. For the same reason what hangs on a channel goes before the
/// channel, and the user and the sessions of a bot before the bot: a repeated pass finds them
/// through what is still there.
#[derive(Debug, PartialEq, Eq)]
pub struct ErasurePass {
    user_id: String,
    message_ids: Vec<String>,
    private_channels: Vec<String>,
    bot_ids: Vec<String>,
    report: ErasureReport,
    stage: Stage,
}

#[verifier::ext_equal]
pub struct PassView {
    pub user_id: Seq<char>,
    /// The messages they wrote
    pub message_ids: Seq<Seq<char>>,
    /// Their saved messages and two-party channels
    pub private_channels: Seq<Seq<char>>,
    /// The bots they own
    pub bot_ids: Seq<Seq<char>>,
    pub report: ReportView,
    pub stage: Stage,
}

impl View for ErasurePass {
    type V = PassView;

    closed spec fn view(&self) -> PassView {
        PassView {
            user_id: self.user_id@,
            message_ids: texts(self.message_ids@),
            private_channels: texts(self.private_channels@),
            bot_ids: texts(self.bot_ids@),
            report: self.report@,
            stage: self.stage,
        }
    }
}

/// The kinds of system message that exist only to describe one member.
pub open spec fn about_a_user() -> Seq<Seq<char>> {
    seq![
        "user_added"@,
        "user_remove"@,
        "user_joined"@,
        "user_left"@,
        "user_kicked"@,
        "user_banned"@,
    ]
}

/// Messages that the user wrote.
pub open spec fn authored(user_id: Seq<char>) -> FilterView {
    meeting(seq![reads("author"@, user_id)])
}

/// Their own imagery, anything on a message they wrote, and uploads they never attached.
pub open spec fn owned_attachments(user_id: Seq<char>, message_ids: Seq<Seq<char>>) -> Seq<
    Seq<ConditionView>,
> {
    seq![
        seq![
            reads_one_of("used_for.type"@, seq!["UserAvatar"@, "UserProfileBackground"@]),
            reads("used_for.id"@, user_id),
        ],
        seq![reads_one_of("used_for.id"@, message_ids)],
        seq![
            reads("uploader_id"@, user_id),
            ConditionView { path: "used_for"@, test: TestView::Absent },
        ],
    ]
}

/// Owned attachments that are held for a safety review.
pub open spec fn withheld_attachments(
    user_id: Seq<char>,
    message_ids: Seq<Seq<char>>,
) -> FilterView {
    FilterView {
        all: seq![
            ConditionView {
                path: "reported"@,
                test: TestView::Equals(ValueView::Flag(true)),
            },
        ],
        any: owned_attachments(user_id, message_ids),
    }
}

/// Owned attachments that nothing holds back.
pub open spec fn erasable_attachments(
    user_id: Seq<char>,
    message_ids: Seq<Seq<char>>,
) -> FilterView {
    FilterView {
        all: seq![
            ConditionView {
                path: "reported"@,
                test: TestView::Differs(ValueView::Flag(true)),
            },
        ],
        any: owned_attachments(user_id, message_ids),
    }
}

/// System messages that describe the user.
pub open spec fn about_user(user_id: Seq<char>) -> FilterView {
    meeting(seq![reads_one_of("system.type"@, about_a_user()), reads("system.id"@, user_id)])
}

/// Saved messages of the user, and two-party channels with them.
pub open spec fn private_to(user_id: Seq<char>) -> FilterView {
    FilterView {
        all: Seq::empty(),
        any: seq![
            seq![reads("channel_type"@, "SavedMessages"@), reads("user"@, user_id)],
            seq![reads("channel_type"@, "DirectMessage"@), reads("recipients"@, user_id)],
        ],
    }
}

/// Replacing the user by the system sentinel in one field of the messages that name them.
pub open spec fn scrub(field: Seq<char>, user_id: Seq<char>) -> CommandView {
    CommandView::UpdateMany {
        collection: "messages"@,
        filter: meeting(seq![reads(field, user_id)]),
        change: ChangeView::Write { path: field, value: ValueView::Text(SYSTEM_USER_ID@) },
    }
}

/// Deleting the documents of a collection that read `text` at `path`.
pub open spec fn delete_reading(
    collection: Seq<char>,
    path: Seq<char>,
    text: Seq<char>,
) -> CommandView {
    CommandView::DeleteMany { collection, filter: meeting(seq![reads(path, text)]) }
}

/// Deleting the documents of a collection that read one of `list` at `path`.
pub open spec fn delete_reading_one_of(
    collection: Seq<char>,
    path: Seq<char>,
    list: Seq<Seq<char>>,
) -> CommandView {
    CommandView::DeleteMany { collection, filter: meeting(seq![reads_one_of(path, list)]) }
}

/// The command that a pass asks for at its stage, none once it is finished.
pub open spec fn command_of(pass: PassView) -> Option<CommandView> {
    let user_id = pass.user_id;
    match pass.stage {
        Stage::ListMessages => Some(
            CommandView::ListIds { collection: "messages"@, filter: authored(user_id) },
        ),
        Stage::CountWithheld => Some(
            CommandView::Count {
                collection: "attachments"@,
                filter: withheld_attachments(user_id, pass.message_ids),
            },
        ),
        Stage::CountMarked => Some(
            CommandView::Count {
                collection: "attachments"@,
                filter: erasable_attachments(user_id, pass.message_ids),
            },
        ),
        Stage::MarkAttachments => Some(
            CommandView::MarkAttachments {
                filter: FilterView {
                    all: Seq::empty(),
                    any: owned_attachments(user_id, pass.message_ids),
                },
            },
        ),
        Stage::DeleteAuthored => Some(
            CommandView::DeleteMany { collection: "messages"@, filter: authored(user_id) },
        ),
        Stage::DeleteAbout => Some(
            CommandView::DeleteMany { collection: "messages"@, filter: about_user(user_id) },
        ),
        Stage::ScrubBy => Some(scrub("system.by"@, user_id)),
        Stage::ScrubFrom => Some(scrub("system.from"@, user_id)),
        Stage::ScrubTo => Some(scrub("system.to"@, user_id)),
        Stage::ListPrivate => Some(
            CommandView::ListIds { collection: "channels"@, filter: private_to(user_id) },
        ),
        Stage::DeletePrivateMessages => Some(
            delete_reading_one_of("messages"@, "channel"@, pass.private_channels),
        ),
        Stage::DeletePrivateObjects => Some(
            CommandView::DeleteChannelObjects { channels: pass.private_channels },
        ),
        Stage::DeletePrivate => Some(
            delete_reading_one_of("channels"@, "_id"@, pass.private_channels),
        ),
        Stage::LeaveGroups => Some(
            CommandView::UpdateMany {
                collection: "channels"@,
                filter: meeting(
                    seq![reads("channel_type"@, "Group"@), reads("recipients"@, user_id)],
                ),
                change: ChangeView::Pull { path: "recipients"@, item: user_id },
            },
        ),
        Stage::DeleteMemberships => Some(delete_reading("server_members"@, "_id.user"@, user_id)),
        Stage::DeleteUnreads => Some(delete_reading("channel_unreads"@, "_id.user"@, user_id)),
        Stage::DeleteInvites => Some(delete_reading("channel_invites"@, "creator"@, user_id)),
        Stage::ReleaseInvites => Some(
            CommandView::UpdateMany {
                collection: "invites"@,
                filter: meeting(seq![reads("claimed_by"@, user_id)]),
                change: ChangeView::Remove { path: "claimed_by"@ },
            },
        ),
        Stage::ListBots => Some(
            CommandView::ListIds {
                collection: "bots"@,
                filter: meeting(seq![reads("owner"@, user_id)]),
            },
        ),
        // A bot id is its user id.
        Stage::DeleteBotUsers => Some(delete_reading_one_of("users"@, "_id"@, pass.bot_ids)),
        Stage::DeleteBotSessions => Some(
            delete_reading_one_of("sessions"@, "user_id"@, pass.bot_ids),
        ),
        Stage::DeleteBots => Some(delete_reading("bots"@, "owner"@, user_id)),
        Stage::PullRelations => Some(
            CommandView::UpdateMany {
                collection: "users"@,
                filter: meeting(
                    seq![
                        ConditionView {
                            path: "relations"@,
                            test: TestView::HasElement(seq![("_id"@, user_id)]),
                        },
                    ],
                ),
                change: ChangeView::PullElement { path: "relations"@, id: user_id },
            },
        ),
        Stage::DeleteSessions => Some(delete_reading("sessions"@, "user_id"@, user_id)),
        Stage::DeleteUser => Some(
            CommandView::DeleteOne {
                collection: "users"@,
                filter: meeting(seq![reads("_id"@, user_id)]),
            },
        ),
        Stage::Finished => None,
    }
}

/// Whether a reply is of the kind that the command of a stage is answered with, and its count
/// can be taken up by the report.
pub open spec fn fits(pass: PassView, reply: ReplyView) -> bool {
    match pass.stage {
        Stage::ListMessages | Stage::ListPrivate | Stage::ListBots => reply is Ids,
        Stage::DeleteAbout | Stage::DeletePrivateMessages => {
            &&& reply is Number
            &&& pass.report.messages_deleted + reply->Number_0 <= u64::MAX
        },
        Stage::ScrubBy | Stage::ScrubFrom | Stage::ScrubTo => {
            &&& reply is Number
            &&& pass.report.system_references_scrubbed + reply->Number_0 <= u64::MAX
        },
        Stage::DeleteSessions => {
            &&& reply is Number
            &&& pass.report.sessions_deleted + reply->Number_0 <= u64::MAX
        },
        Stage::CountWithheld
        | Stage::CountMarked
        | Stage::DeleteAuthored
        | Stage::DeletePrivate
        | Stage::LeaveGroups
        | Stage::DeleteMemberships
        | Stage::DeleteUnreads
        | Stage::DeleteInvites
        | Stage::DeleteBots
        | Stage::DeleteBotSessions
        | Stage::PullRelations => reply is Number,
        _ => true,
    }
}

/// The pass after the command of its stage was answered.
pub open spec fn advanced(pass: PassView, reply: ReplyView) -> PassView {
    let report = pass.report;
    let number = reply->Number_0;
    match pass.stage {
        Stage::ListMessages => PassView {
            message_ids: reply->Ids_0,
            stage: Stage::CountWithheld,
            ..pass
        },
        Stage::CountWithheld => PassView {
            report: ReportView { attachments_withheld_reported: number, ..report },
            stage: Stage::CountMarked,
            ..pass
        },
        Stage::CountMarked => PassView {
            report: ReportView { attachments_marked: number, ..report },
            stage: Stage::MarkAttachments,
            ..pass
        },
        Stage::MarkAttachments => PassView { stage: Stage::DeleteAuthored, ..pass },
        Stage::DeleteAuthored => PassView {
            report: ReportView { messages_deleted: number, ..report },
            stage: Stage::DeleteAbout,
            ..pass
        },
        Stage::DeleteAbout => PassView {
            report: ReportView { messages_deleted: report.messages_deleted + number, ..report },
            stage: Stage::ScrubBy,
            ..pass
        },
        Stage::ScrubBy => PassView {
            report: ReportView {
                system_references_scrubbed: report.system_references_scrubbed + number,
                ..report
            },
            stage: Stage::ScrubFrom,
            ..pass
        },
        Stage::ScrubFrom => PassView {
            report: ReportView {
                system_references_scrubbed: report.system_references_scrubbed + number,
                ..report
            },
            stage: Stage::ScrubTo,
            ..pass
        },
        Stage::ScrubTo => PassView {
            report: ReportView {
                system_references_scrubbed: report.system_references_scrubbed + number,
                ..report
            },
            stage: Stage::ListPrivate,
            ..pass
        },
        Stage::ListPrivate => PassView {
            private_channels: reply->Ids_0,
            stage: if reply->Ids_0.len() == 0 {
                Stage::LeaveGroups
            } else {
                Stage::DeletePrivateMessages
            },
            ..pass
        },
        Stage::DeletePrivateMessages => PassView {
            report: ReportView { messages_deleted: report.messages_deleted + number, ..report },
            stage: Stage::DeletePrivateObjects,
            ..pass
        },
        Stage::DeletePrivateObjects => PassView { stage: Stage::DeletePrivate, ..pass },
        Stage::DeletePrivate => PassView {
            report: ReportView { channels_deleted: number, ..report },
            stage: Stage::LeaveGroups,
            ..pass
        },
        Stage::LeaveGroups => PassView {
            report: ReportView { groups_departed: number, ..report },
            stage: Stage::DeleteMemberships,
            ..pass
        },
        Stage::DeleteMemberships => PassView {
            report: ReportView { memberships_deleted: number, ..report },
            stage: Stage::DeleteUnreads,
            ..pass
        },
        Stage::DeleteUnreads => PassView {
            report: ReportView { unreads_deleted: number, ..report },
            stage: Stage::DeleteInvites,
            ..pass
        },
        Stage::DeleteInvites => PassView {
            report: ReportView { invites_deleted: number, ..report },
            stage: Stage::ReleaseInvites,
            ..pass
        },
        Stage::ReleaseInvites => PassView { stage: Stage::ListBots, ..pass },
        Stage::ListBots => PassView {
            bot_ids: reply->Ids_0,
            stage: if reply->Ids_0.len() == 0 {
                Stage::PullRelations
            } else {
                Stage::DeleteBotUsers
            },
            ..pass
        },
        Stage::DeleteBotUsers => PassView { stage: Stage::DeleteBotSessions, ..pass },
        Stage::DeleteBotSessions => PassView {
            report: ReportView { sessions_deleted: number, ..report },
            stage: Stage::DeleteBots,
            ..pass
        },
        Stage::DeleteBots => PassView {
            report: ReportView { bots_deleted: number, ..report },
            stage: Stage::PullRelations,
            ..pass
        },
        Stage::PullRelations => PassView {
            report: ReportView { relations_pulled: number, ..report },
            stage: Stage::DeleteSessions,
            ..pass
        },
        Stage::DeleteSessions => PassView {
            report: ReportView { sessions_deleted: report.sessions_deleted + number, ..report },
            stage: Stage::DeleteUser,
            ..pass
        },
        Stage::DeleteUser => PassView { stage: Stage::Finished, ..pass },
        Stage::Finished => pass,
    }
}

/// The pass that is about to begin.
pub open spec fn first(user_id: Seq<char>) -> PassView {
    PassView {
        user_id,
        message_ids: Seq::empty(),
        private_channels: Seq::empty(),
        bot_ids: Seq::empty(),
        report: blank_report(user_id, ERASURE_POLICY_VERSION@),
        stage: Stage::ListMessages,
    }
}

fn strings(list: &[&str]) -> (result: Vec<String>)
    ensures
        texts(result@) == list@.map_values(|item: &str| item@),
{
    let mut result: Vec<String> = Vec::new();
    for i in 0..list.len()
        invariant
            result@.len() == i,
            forall|j: int| 0 <= j < i ==> (#[trigger] result@[j])@ == list@[j]@,
    {
        result.push(list[i].to_owned());
    }
    assert(texts(result@) =~= list@.map_values(|item: &str| item@));
    result
}

fn owned_groups(user_id: &str, message_ids: &Vec<String>) -> (result: Vec<Vec<Condition>>)
    ensures
        result@.map_values(|group: Vec<Condition>| crate::query::conditions(group@))
            == owned_attachments(user_id@, texts(message_ids@)),
{
    let own_uses = strings(&["UserAvatar", "UserProfileBackground"]);
    assert(texts(own_uses@) =~= seq!["UserAvatar"@, "UserProfileBackground"@]);
    let imagery = vec![one_of("used_for.type", &own_uses), equals("used_for.id", user_id)];
    let on_messages = vec![one_of("used_for.id", message_ids)];
    let loose = vec![
        equals("uploader_id", user_id),
        Condition { path: "used_for".to_owned(), test: Test::Absent },
    ];
    let result = vec![imagery, on_messages, loose];
    assert(result@.map_values(|group: Vec<Condition>| crate::query::conditions(group@))
        =~~= owned_attachments(user_id@, texts(message_ids@)));
    result
}

fn reported(test: Test) -> (result: Condition)
    ensures
        result@ == (ConditionView { path: "reported"@, test: test@ }),
{
    Condition { path: "reported".to_owned(), test }
}

fn deleting(collection: &str, filter: Filter) -> (result: Command)
    ensures
        result@ == (CommandView::DeleteMany { collection: collection@, filter: filter@ }),
{
    Command::DeleteMany { collection: collection.to_owned(), filter }
}

fn scrubbing(field: &str, user_id: &str) -> (result: Command)
    ensures
        result@ == scrub(field@, user_id@),
{
    Command::UpdateMany {
        collection: "messages".to_owned(),
        filter: only(equals(field, user_id)),
        change: Change::Write {
            path: field.to_owned(),
            value: Value::Text(SYSTEM_USER_ID.to_owned()),
        },
    }
}

impl ErasurePass {
    /// A pass over everything that belongs to a user.
    pub fn new(user_id: &str) -> (pass: ErasurePass)
        ensures
            pass@ == first(user_id@),
    {
        let pass = ErasurePass {
            user_id: user_id.to_owned(),
            message_ids: Vec::new(),
            private_channels: Vec::new(),
            bot_ids: Vec::new(),
            report: ErasureReport {
                user_id: user_id.to_owned(),
                policy_version: ERASURE_POLICY_VERSION.to_owned(),
                ..ErasureReport::default()
            },
            stage: Stage::ListMessages,
        };
        assert(pass@ =~= first(user_id@));
        pass
    }

    /// The command to carry out next, none once the pass is finished.
    pub fn command(&self) -> (result: Option<Command>)
        ensures
            result is None <==> command_of(self@) is None,
            result matches Some(command) ==> Some(command@) == command_of(self@),
    {
        let user_id = self.user_id.as_str();
        match self.stage {
            Stage::ListMessages => Some(
                Command::ListIds {
                    collection: "messages".to_owned(),
                    filter: only(equals("author", user_id)),
                },
            ),
            Stage::CountWithheld => {
                let filter = Filter {
                    all: vec![reported(Test::Equals(Value::Flag(true)))],
                    any: owned_groups(user_id, &self.message_ids),
                };
                assert(filter@ =~~= withheld_attachments(user_id@, texts(self.message_ids@)));
                Some(Command::Count { collection: "attachments".to_owned(), filter })
            },
            Stage::CountMarked => {
                let filter = Filter {
                    all: vec![reported(Test::Differs(Value::Flag(true)))],
                    any: owned_groups(user_id, &self.message_ids),
                };
                assert(filter@ =~~= erasable_attachments(user_id@, texts(self.message_ids@)));
                Some(Command::Count { collection: "attachments".to_owned(), filter })
            },
            Stage::MarkAttachments => {
                let filter = Filter {
                    all: Vec::new(),
                    any: owned_groups(user_id, &self.message_ids),
                };
                assert(filter@.all =~= Seq::empty());
                Some(Command::MarkAttachments { filter })
            },
            Stage::DeleteAuthored => Some(deleting("messages", only(equals("author", user_id)))),
            Stage::DeleteAbout => {
                let kinds = strings(
                    &[
                        "user_added",
                        "user_remove",
                        "user_joined",
                        "user_left",
                        "user_kicked",
                        "user_banned",
                    ],
                );
                assert(texts(kinds@) =~= about_a_user());
                Some(
                    deleting(
                        "messages",
                        both(one_of("system.type", &kinds), equals("system.id", user_id)),
                    ),
                )
            },
            Stage::ScrubBy => Some(scrubbing("system.by", user_id)),
            Stage::ScrubFrom => Some(scrubbing("system.from", user_id)),
            Stage::ScrubTo => Some(scrubbing("system.to", user_id)),
            Stage::ListPrivate => {
                let saved = vec![equals("channel_type", "SavedMessages"), equals("user", user_id)];
                let direct = vec![
                    equals("channel_type", "DirectMessage"),
                    equals("recipients", user_id),
                ];
                let filter = Filter { all: Vec::new(), any: vec![saved, direct] };
                assert(filter@ =~~= private_to(user_id@));
                Some(Command::ListIds { collection: "channels".to_owned(), filter })
            },
            Stage::DeletePrivateMessages => Some(
                deleting("messages", only(one_of("channel", &self.private_channels))),
            ),
            Stage::DeletePrivate => Some(
                deleting("channels", only(one_of("_id", &self.private_channels))),
            ),
            Stage::DeletePrivateObjects => Some(
                Command::DeleteChannelObjects { channels: copied(&self.private_channels) },
            ),
            Stage::LeaveGroups => Some(
                Command::UpdateMany {
                    collection: "channels".to_owned(),
                    filter: both(
                        equals("channel_type", "Group"),
                        equals("recipients", user_id),
                    ),
                    change: Change::Pull {
                        path: "recipients".to_owned(),
                        item: user_id.to_owned(),
                    },
                },
            ),
            Stage::DeleteMemberships => Some(
                deleting("server_members", only(equals("_id.user", user_id))),
            ),
            Stage::DeleteUnreads => Some(
                deleting("channel_unreads", only(equals("_id.user", user_id))),
            ),
            Stage::DeleteInvites => Some(
                deleting("channel_invites", only(equals("creator", user_id))),
            ),
            Stage::ReleaseInvites => Some(
                Command::UpdateMany {
                    collection: "invites".to_owned(),
                    filter: only(equals("claimed_by", user_id)),
                    change: Change::Remove { path: "claimed_by".to_owned() },
                },
            ),
            Stage::ListBots => Some(
                Command::ListIds {
                    collection: "bots".to_owned(),
                    filter: only(equals("owner", user_id)),
                },
            ),
            Stage::DeleteBots => Some(deleting("bots", only(equals("owner", user_id)))),
            Stage::DeleteBotUsers => Some(deleting("users", only(one_of("_id", &self.bot_ids)))),
            Stage::DeleteBotSessions => Some(
                deleting("sessions", only(one_of("user_id", &self.bot_ids))),
            ),
            Stage::PullRelations => {
                let listed = vec![("_id".to_owned(), user_id.to_owned())];
                let condition = Condition {
                    path: "relations".to_owned(),
                    test: Test::HasElement(listed),
                };
                assert(condition@.test->HasElement_0 =~= seq![("_id"@, user_id@)]);
                Some(
                    Command::UpdateMany {
                        collection: "users".to_owned(),
                        filter: only(condition),
                        change: Change::PullElement {
                            path: "relations".to_owned(),
                            id: user_id.to_owned(),
                        },
                    },
                )
            },
            Stage::DeleteSessions => Some(deleting("sessions", only(equals("user_id", user_id)))),
            Stage::DeleteUser => Some(
                Command::DeleteOne {
                    collection: "users".to_owned(),
                    filter: only(equals("_id", user_id)),
                },
            ),
            Stage::Finished => None,
        }
    }

    /// Whether a reply can be taken up at the stage of the pass.
    pub fn accepts(&self, reply: &Reply) -> (result: bool)
        ensures
            result == fits(self@, reply@),
    {
        match self.stage {
            Stage::ListMessages | Stage::ListPrivate | Stage::ListBots => match reply {
                Reply::Ids(_) => true,
                _ => false,
            },
            Stage::DeleteAbout | Stage::DeletePrivateMessages => match reply {
                Reply::Number(number) => *number <= u64::MAX - self.report.messages_deleted,
                _ => false,
            },
            Stage::ScrubBy | Stage::ScrubFrom | Stage::ScrubTo => match reply {
                Reply::Number(number) => *number <= u64::MAX
                    - self.report.system_references_scrubbed,
                _ => false,
            },
            Stage::DeleteSessions => match reply {
                Reply::Number(number) => *number <= u64::MAX - self.report.sessions_deleted,
                _ => false,
            },
            Stage::CountWithheld
            | Stage::CountMarked
            | Stage::DeleteAuthored
            | Stage::DeletePrivate
            | Stage::LeaveGroups
            | Stage::DeleteMemberships
            | Stage::DeleteUnreads
            | Stage::DeleteInvites
            | Stage::DeleteBots
            | Stage::DeleteBotSessions
            | Stage::PullRelations => match reply {
                Reply::Number(_) => true,
                _ => false,
            },
            _ => true,
        }
    }

    /// Take up the reply to the command of the stage.
    pub fn advance(&mut self, reply: Reply)
        requires
            fits(old(self)@, reply@),
        ensures
            final(self)@ == advanced(old(self)@, reply@),
    {
        let (ids, number): (Vec<String>, u64) = match reply {
            Reply::Ids(ids) => (ids, 0),
            Reply::Number(number) => (Vec::new(), number),
            Reply::Done => (Vec::new(), 0),
        };
        match self.stage {
            Stage::ListMessages => {
                self.message_ids = ids;
                self.stage = Stage::CountWithheld;
            },
            Stage::CountWithheld => {
                self.report.attachments_withheld_reported = number;
                self.stage = Stage::CountMarked;
            },
            Stage::CountMarked => {
                self.report.attachments_marked = number;
                self.stage = Stage::MarkAttachments;
            },
            Stage::MarkAttachments => {
                self.stage = Stage::DeleteAuthored;
            },
            Stage::DeleteAuthored => {
                self.report.messages_deleted = number;
                self.stage = Stage::DeleteAbout;
            },
            Stage::DeleteAbout => {
                self.report.messages_deleted = self.report.messages_deleted + number;
                self.stage = Stage::ScrubBy;
            },
            Stage::ScrubBy => {
                self.report.system_references_scrubbed = self.report.system_references_scrubbed
                    + number;
                self.stage = Stage::ScrubFrom;
            },
            Stage::ScrubFrom => {
                self.report.system_references_scrubbed = self.report.system_references_scrubbed
                    + number;
                self.stage = Stage::ScrubTo;
            },
            Stage::ScrubTo => {
                self.report.system_references_scrubbed = self.report.system_references_scrubbed
                    + number;
                self.stage = Stage::ListPrivate;
            },
            Stage::ListPrivate => {
                self.stage = if ids.len() == 0 {
                    Stage::LeaveGroups
                } else {
                    Stage::DeletePrivateMessages
                };
                self.private_channels = ids;
            },
            Stage::DeletePrivateMessages => {
                self.report.messages_deleted = self.report.messages_deleted + number;
                self.stage = Stage::DeletePrivateObjects;
            },
            Stage::DeletePrivateObjects => {
                self.stage = Stage::DeletePrivate;
            },
            Stage::DeletePrivate => {
                self.report.channels_deleted = number;
                self.stage = Stage::LeaveGroups;
            },
            Stage::LeaveGroups => {
                self.report.groups_departed = number;
                self.stage = Stage::DeleteMemberships;
            },
            Stage::DeleteMemberships => {
                self.report.memberships_deleted = number;
                self.stage = Stage::DeleteUnreads;
            },
            Stage::DeleteUnreads => {
                self.report.unreads_deleted = number;
                self.stage = Stage::DeleteInvites;
            },
            Stage::DeleteInvites => {
                self.report.invites_deleted = number;
                self.stage = Stage::ReleaseInvites;
            },
            Stage::ReleaseInvites => {
                self.stage = Stage::ListBots;
            },
            Stage::ListBots => {
                self.stage = if ids.len() == 0 {
                    Stage::PullRelations
                } else {
                    Stage::DeleteBotUsers
                };
                self.bot_ids = ids;
            },
            Stage::DeleteBotUsers => {
                self.stage = Stage::DeleteBotSessions;
            },
            Stage::DeleteBotSessions => {
                self.report.sessions_deleted = number;
                self.stage = Stage::DeleteBots;
            },
            Stage::DeleteBots => {
                self.report.bots_deleted = number;
                self.stage = Stage::PullRelations;
            },
            Stage::PullRelations => {
                self.report.relations_pulled = number;
                self.stage = Stage::DeleteSessions;
            },
            Stage::DeleteSessions => {
                self.report.sessions_deleted = self.report.sessions_deleted + number;
                self.stage = Stage::DeleteUser;
            },
            Stage::DeleteUser => {
                self.stage = Stage::Finished;
            },
            Stage::Finished => {},
        }
    }

    /// What the pass removed.
    pub fn into_report(self) -> (report: ErasureReport)
        ensures
            report@ == self@.report,
    {
        self.report
    }
}

/// The operation and the collection that the failure of a command is reported under, none
/// where what carries the command out reports its own failure.
pub open spec fn failure_of(command: CommandView) -> Option<(Seq<char>, Seq<char>)> {
    match command {
        CommandView::ListIds { collection, .. } => Some(("distinct"@, collection)),
        CommandView::Count { collection, .. } => Some(("count_documents"@, collection)),
        CommandView::DeleteMany { collection, .. } => Some(("delete_many"@, collection)),
        CommandView::DeleteOne { collection, .. } => Some(("delete_one"@, collection)),
        CommandView::UpdateMany { collection, .. } => Some(("update_many"@, collection)),
        CommandView::MarkAttachments { .. } => None,
        CommandView::DeleteChannelObjects { .. } => None,
    }
}

impl Command {
    /// The error to answer with when the database could not carry the command out.
    pub fn failure(&self) -> (result: Option<Error>)
        ensures
            match failure_of(self@) {
                Some((operation, collection)) => result matches Some(error)
                    && is_database_error(error, operation, collection),
                None => result is None,
            },
    {
        match self {
            Command::ListIds { collection, .. } => Some(
                database_error("distinct", collection.as_str()),
            ),
            Command::Count { collection, .. } => Some(
                database_error("count_documents", collection.as_str()),
            ),
            Command::DeleteMany { collection, .. } => Some(
                database_error("delete_many", collection.as_str()),
            ),
            Command::DeleteOne { collection, .. } => Some(
                database_error("delete_one", collection.as_str()),
            ),
            Command::UpdateMany { collection, .. } => Some(
                database_error("update_many", collection.as_str()),
            ),
            Command::MarkAttachments { .. } => None,
            Command::DeleteChannelObjects { .. } => None,
        }
    }
}

/// A pass begins with the messages of the user, with nothing listed and nothing counted, under the
/// policy in force.
pub proof fn law_pass_begins_with_nothing(
    user_id: &str,
    pass: ErasurePass,
    report: ErasureReport,
)
    requires
        call_ensures(ErasurePass::new, (user_id,), pass),
        call_ensures(ErasurePass::into_report, (pass,), report),
    ensures
        pass@.stage is ListMessages,
        pass@.user_id == user_id@,
        pass@.message_ids.len() == 0,
        pass@.private_channels.len() == 0,
        pass@.bot_ids.len() == 0,
        report.user_id@ == user_id@,
        report.policy_version@ == "1"@,
        report.attachments_marked == 0,
        report.messages_deleted == 0,
        report.channels_deleted == 0,
        report.groups_departed == 0,
        report.memberships_deleted == 0,
        report.unreads_deleted == 0,
        report.invites_deleted == 0,
        report.bots_deleted == 0,
        report.relations_pulled == 0,
        report.sessions_deleted == 0,
        report.system_references_scrubbed == 0,
        report.attachments_withheld_reported == 0,
{
}

/// Whether an attachment is a user's own: their avatar or the background of their profile, on one
/// of some messages, or uploaded by them and never used.
pub open spec fn is_own_attachment(
    attachment: Document,
    user_id: Seq<char>,
    message_ids: Seq<Seq<char>>,
) -> bool {
    ||| (shows(attachment, "used_for.type"@, "UserAvatar"@) || shows(
        attachment,
        "used_for.type"@,
        "UserProfileBackground"@,
    )) && shows(attachment, "used_for.id"@, user_id)
    ||| exists|id: Seq<char>| #[trigger]
        message_ids.contains(id) && shows(attachment, "used_for.id"@, id)
    ||| shows(attachment, "uploader_id"@, user_id) && !attachment.fields.contains_key("used_for"@)
}

proof fn lemma_owned_groups(
    attachment: Document,
    user_id: Seq<char>,
    message_ids: Seq<Seq<char>>,
)
    ensures
        (exists|g: int|
            0 <= g < 3 && meets_all(
                attachment,
                #[trigger] owned_attachments(user_id, message_ids)[g],
            )) <==> is_own_attachment(attachment, user_id, message_ids),
{
    let any = owned_attachments(user_id, message_ids);
    let uses = seq!["UserAvatar"@, "UserProfileBackground"@];
    assert(uses[0] == "UserAvatar"@ && uses[1] == "UserProfileBackground"@);
    assert(any[0][0] == reads_one_of("used_for.type"@, uses));
    assert(any[0][1] == reads("used_for.id"@, user_id));
    assert(any[1][0] == reads_one_of("used_for.id"@, message_ids));
    assert(any[2][0] == reads("uploader_id"@, user_id));
    assert(any[2][1] == (ConditionView { path: "used_for"@, test: TestView::Absent }));
    assert(meets(attachment, any[0][0]) <==> shows(attachment, "used_for.type"@, "UserAvatar"@)
        || shows(attachment, "used_for.type"@, "UserProfileBackground"@)) by {
        if shows_one_of(attachment, "used_for.type"@, uses) {
            let text = choose|text: Seq<char>| #[trigger]
                uses.contains(text) && shows(attachment, "used_for.type"@, text);
            let i = uses.index_of(text);
            assert(uses[i] == text);
        }
        if shows(attachment, "used_for.type"@, "UserAvatar"@) {
            assert(uses.contains(uses[0]));
        }
        if shows(attachment, "used_for.type"@, "UserProfileBackground"@) {
            assert(uses.contains(uses[1]));
        }
    }
    assert(meets_all(attachment, any[0]) <==> meets(attachment, any[0][0]) && meets(
        attachment,
        any[0][1],
    ));
    assert(meets_all(attachment, any[1]) <==> meets(attachment, any[1][0]));
    assert(meets_all(attachment, any[2]) <==> meets(attachment, any[2][0]) && meets(
        attachment,
        any[2][1],
    ));
    if exists|g: int| 0 <= g < 3 && meets_all(attachment, #[trigger] any[g]) {
        let g = choose|g: int| 0 <= g < 3 && meets_all(attachment, #[trigger] any[g]);
        assert(g == 0 || g == 1 || g == 2);
    }
}

/// Of a user's own attachments those held for a review are counted apart from the others; all of
/// them are marked, and nobody else's.
pub proof fn law_own_attachments_are_counted_and_marked(
    pass: &ErasurePass,
    command: Command,
    attachment: Document,
)
    requires
        call_ensures(ErasurePass::command, (pass,), Some(command)),
        pass@.stage is CountWithheld || pass@.stage is CountMarked || pass@.stage is
            MarkAttachments,
    ensures
        ({
            let own = is_own_attachment(attachment, pass@.user_id, pass@.message_ids);
            let flagged = attachment.fields.contains_key("reported"@)
                && attachment.fields["reported"@].contains(ValueView::Flag(true));
            &&& pass@.stage is CountWithheld ==> command is Count && command->Count_collection@
                == "attachments"@ && (picks(command->Count_filter@, attachment) <==> own && flagged)
            &&& pass@.stage is CountMarked ==> command is Count && command->Count_collection@
                == "attachments"@ && (picks(command->Count_filter@, attachment) <==> own
                && !flagged)
            &&& pass@.stage is MarkAttachments ==> command is MarkAttachments && (picks(
                command->MarkAttachments_filter@,
                attachment,
            ) <==> own)
        }),
{
    lemma_owned_groups(attachment, pass@.user_id, pass@.message_ids);
    let filter = match command {
        Command::Count { filter, .. } => filter@,
        Command::MarkAttachments { filter } => filter@,
        _ => arbitrary(),
    };
    assert(filter.any.len() == 3);
    if filter.all.len() == 1 {
        assert(meets_all(attachment, filter.all) <==> meets(attachment, filter.all[0]));
    }
}

/// Whether a message describes a user: as one who was added, removed, came, left, was kicked or
/// banned.
pub open spec fn describes(message: Document, user_id: Seq<char>) -> bool {
    &&& shows(message, "system.id"@, user_id)
    &&& {
        ||| shows(message, "system.type"@, "user_added"@)
        ||| shows(message, "system.type"@, "user_remove"@)
        ||| shows(message, "system.type"@, "user_joined"@)
        ||| shows(message, "system.type"@, "user_left"@)
        ||| shows(message, "system.type"@, "user_kicked"@)
        ||| shows(message, "system.type"@, "user_banned"@)
    }
}

/// The messages deleted are those that the user wrote and those that describe the user, and no
/// others.
pub proof fn law_own_messages_are_deleted(pass: &ErasurePass, command: Command, message: Document)
    requires
        call_ensures(ErasurePass::command, (pass,), Some(command)),
        pass@.stage is ListMessages || pass@.stage is DeleteAuthored || pass@.stage is DeleteAbout,
    ensures
        pass@.stage is ListMessages ==> command is ListIds && command->ListIds_collection@
            == "messages"@ && filters_by(command->ListIds_filter, "author"@, pass@.user_id),
        pass@.stage is DeleteAuthored ==> command is DeleteMany && command->DeleteMany_collection@
            == "messages"@ && filters_by(command->DeleteMany_filter, "author"@, pass@.user_id),
        pass@.stage is DeleteAbout ==> command is DeleteMany && command->DeleteMany_collection@
            == "messages"@ && (picks(command->DeleteMany_filter@, message) <==> describes(
            message,
            pass@.user_id,
        )),
{
    match command {
        Command::ListIds { filter, .. } => {
            lemma_filters_by(filter, "author"@, pass@.user_id);
        },
        Command::DeleteMany { filter, .. } => {
            if pass@.stage is DeleteAuthored {
                lemma_filters_by(filter, "author"@, pass@.user_id);
            } else {
                let kinds = about_a_user();
                let all = filter@.all;
                assert(all.len() == 2);
                assert(all[0] == reads_one_of("system.type"@, kinds));
                assert(all[1] == reads("system.id"@, pass@.user_id));
                assert(meets_all(message, all) <==> meets(message, all[0]) && meets(
                    message,
                    all[1],
                ));
                assert(kinds[0] == "user_added"@ && kinds[1] == "user_remove"@ && kinds[2]
                    == "user_joined"@ && kinds[3] == "user_left"@ && kinds[4] == "user_kicked"@
                    && kinds[5] == "user_banned"@);
                assert forall|i: int| 0 <= i < 6 implies kinds.contains(#[trigger] kinds[i]) by {}
                if shows_one_of(message, "system.type"@, kinds) {
                    let kind = choose|kind: Seq<char>| #[trigger]
                        kinds.contains(kind) && shows(message, "system.type"@, kind);
                    let i = kinds.index_of(kind);
                    assert(kinds[i] == kind);
                }
            }
        },
        _ => {},
    }
}

/// The channels private to a user are their saved messages and the direct messages with them; the
/// messages in those listed go, then what hangs off them, then the channels themselves.
pub proof fn law_private_channels_are_emptied_and_deleted(
    pass: &ErasurePass,
    command: Command,
    channel: Document,
)
    requires
        call_ensures(ErasurePass::command, (pass,), Some(command)),
        pass@.stage is ListPrivate || pass@.stage is DeletePrivateMessages || pass@.stage is
            DeletePrivateObjects || pass@.stage is DeletePrivate,
    ensures
        pass@.stage is ListPrivate ==> command is ListIds && command->ListIds_collection@
            == "channels"@ && (picks(command->ListIds_filter@, channel) <==> (shows(
            channel,
            "channel_type"@,
            "SavedMessages"@,
        ) && shows(channel, "user"@, pass@.user_id)) || (shows(
            channel,
            "channel_type"@,
            "DirectMessage"@,
        ) && shows(channel, "recipients"@, pass@.user_id))),
        pass@.stage is DeletePrivateMessages ==> command is DeleteMany
            && command->DeleteMany_collection@ == "messages"@ && filters_by_one_of(
            command->DeleteMany_filter,
            "channel"@,
            pass@.private_channels,
        ),
        pass@.stage is DeletePrivateObjects ==> command is DeleteChannelObjects && texts(
            command->channels@,
        ) == pass@.private_channels,
        pass@.stage is DeletePrivate ==> command is DeleteMany && command->DeleteMany_collection@
            == "channels"@ && filters_by_one_of(
            command->DeleteMany_filter,
            "_id"@,
            pass@.private_channels,
        ),
{
    match command {
        Command::ListIds { filter, .. } => {
            let any = filter@.any;
            let user_id = pass@.user_id;
            assert(any.len() == 2);
            assert(any[0][0] == reads("channel_type"@, "SavedMessages"@));
            assert(any[0][1] == reads("user"@, user_id));
            assert(any[1][0] == reads("channel_type"@, "DirectMessage"@));
            assert(any[1][1] == reads("recipients"@, user_id));
            assert(meets_all(channel, any[0]) <==> meets(channel, any[0][0]) && meets(
                channel,
                any[0][1],
            ));
            assert(meets_all(channel, any[1]) <==> meets(channel, any[1][0]) && meets(
                channel,
                any[1][1],
            ));
            if exists|g: int| 0 <= g < any.len() && meets_all(channel, #[trigger] any[g]) {
                let g = choose|g: int| 0 <= g < any.len() && meets_all(channel, #[trigger] any[g]);
                assert(g == 0 || g == 1);
            }
        },
        Command::DeleteMany { filter, .. } => {
            if pass@.stage is DeletePrivateMessages {
                lemma_filters_by_one_of(filter, "channel"@, pass@.private_channels);
            } else {
                lemma_filters_by_one_of(filter, "_id"@, pass@.private_channels);
            }
        },
        _ => {},
    }
}

/// Whether a command puts the system sentinel in the place of a user in a field of messages.
pub open spec fn puts_sentinel(command: Command, field: Seq<char>, user_id: Seq<char>) -> bool {
    &&& command is UpdateMany
    &&& command->UpdateMany_collection@ == "messages"@
    &&& filters_by(command->UpdateMany_filter, field, user_id)
    &&& command->change is Write
    &&& command->change->Write_path@ == field
    &&& command->change->value is Text
    &&& command->change->value->Text_0@ == "00000000000000000000000000"@
}

/// Where messages name the user as the one who acted, the sentinel of the system is put there, in
/// each of the three fields that can name one.
pub proof fn law_actors_are_scrubbed(pass: &ErasurePass, command: Command)
    requires
        call_ensures(ErasurePass::command, (pass,), Some(command)),
    ensures
        pass@.stage is ScrubBy ==> puts_sentinel(command, "system.by"@, pass@.user_id),
        pass@.stage is ScrubFrom ==> puts_sentinel(command, "system.from"@, pass@.user_id),
        pass@.stage is ScrubTo ==> puts_sentinel(command, "system.to"@, pass@.user_id),
{
    let user_id = pass@.user_id;
    if pass@.stage is ScrubBy || pass@.stage is ScrubFrom || pass@.stage is ScrubTo {
        let field = match pass@.stage {
            Stage::ScrubBy => "system.by"@,
            Stage::ScrubFrom => "system.from"@,
            _ => "system.to"@,
        };
        assert(command@ == scrub(field, user_id));
        assert(command is UpdateMany);
        lemma_filters_by(command->UpdateMany_filter, field, user_id);
        assert(command->change@ == (ChangeView::Write {
            path: field,
            value: ValueView::Text(SYSTEM_USER_ID@),
        }));
    }
}

/// Whether a command deletes the documents of a collection with a text at a path.
pub open spec fn deletes_by(
    command: Command,
    collection: Seq<char>,
    path: Seq<char>,
    text: Seq<char>,
) -> bool {
    &&& command is DeleteMany
    &&& command->DeleteMany_collection@ == collection
    &&& filters_by(command->DeleteMany_filter, path, text)
}

/// Whether a command deletes the documents of a collection with one of some texts at a path.
pub open spec fn deletes_by_one_of(
    command: Command,
    collection: Seq<char>,
    path: Seq<char>,
    list: Seq<Seq<char>>,
) -> bool {
    &&& command is DeleteMany
    &&& command->DeleteMany_collection@ == collection
    &&& filters_by_one_of(command->DeleteMany_filter, path, list)
}

/// What is kept of a user in each collection is deleted by what names the user there; so are the
/// bots that they own, with their users and sessions, and last of all the user, alone.
pub proof fn law_what_names_the_user_is_deleted(pass: &ErasurePass, command: Command)
    requires
        call_ensures(ErasurePass::command, (pass,), Some(command)),
    ensures
        pass@.stage is DeleteMemberships ==> deletes_by(
            command,
            "server_members"@,
            "_id.user"@,
            pass@.user_id,
        ),
        pass@.stage is DeleteUnreads ==> deletes_by(
            command,
            "channel_unreads"@,
            "_id.user"@,
            pass@.user_id,
        ),
        pass@.stage is DeleteInvites ==> deletes_by(
            command,
            "channel_invites"@,
            "creator"@,
            pass@.user_id,
        ),
        pass@.stage is ListBots ==> command is ListIds && command->ListIds_collection@ == "bots"@
            && filters_by(command->ListIds_filter, "owner"@, pass@.user_id),
        pass@.stage is DeleteBotUsers ==> deletes_by_one_of(
            command,
            "users"@,
            "_id"@,
            pass@.bot_ids,
        ),
        pass@.stage is DeleteBotSessions ==> deletes_by_one_of(
            command,
            "sessions"@,
            "user_id"@,
            pass@.bot_ids,
        ),
        pass@.stage is DeleteBots ==> deletes_by(command, "bots"@, "owner"@, pass@.user_id),
        pass@.stage is DeleteSessions ==> deletes_by(
            command,
            "sessions"@,
            "user_id"@,
            pass@.user_id,
        ),
        pass@.stage is DeleteUser ==> command is DeleteOne && command->DeleteOne_collection@
            == "users"@ && filters_by(command->DeleteOne_filter, "_id"@, pass@.user_id),
{
    let user_id = pass@.user_id;
    match pass@.stage {
        Stage::DeleteMemberships | Stage::DeleteUnreads => {
            lemma_filters_by(command->DeleteMany_filter, "_id.user"@, user_id);
        },
        Stage::DeleteInvites => {
            lemma_filters_by(command->DeleteMany_filter, "creator"@, user_id);
        },
        Stage::ListBots => {
            lemma_filters_by(command->ListIds_filter, "owner"@, user_id);
        },
        Stage::DeleteBotUsers => {
            lemma_filters_by_one_of(command->DeleteMany_filter, "_id"@, pass@.bot_ids);
        },
        Stage::DeleteBotSessions => {
            lemma_filters_by_one_of(command->DeleteMany_filter, "user_id"@, pass@.bot_ids);
        },
        Stage::DeleteBots => {
            lemma_filters_by(command->DeleteMany_filter, "owner"@, user_id);
        },
        Stage::DeleteSessions => {
            lemma_filters_by(command->DeleteMany_filter, "user_id"@, user_id);
        },
        Stage::DeleteUser => {
            lemma_filters_by(command->DeleteOne_filter, "_id"@, user_id);
        },
        _ => {},
    }
}

/// What others keep stays with them without the user: groups lose the recipient, a claimed invite
/// the name, and a list of relations its entry.
pub proof fn law_others_lose_the_user_alone(pass: &ErasurePass, command: Command)
    requires
        call_ensures(ErasurePass::command, (pass,), Some(command)),
        pass@.stage is LeaveGroups || pass@.stage is ReleaseInvites || pass@.stage is PullRelations,
    ensures
        command is UpdateMany,
        pass@.stage is LeaveGroups ==> {
            &&& command->UpdateMany_collection@ == "channels"@
            &&& command->UpdateMany_filter.all@.len() == 2
            &&& asks_for(command->UpdateMany_filter.all@[0], "channel_type"@, "Group"@)
            &&& asks_for(command->UpdateMany_filter.all@[1], "recipients"@, pass@.user_id)
            &&& command->UpdateMany_filter.any@.len() == 0
            &&& command->change is Pull
            &&& command->change->Pull_path@ == "recipients"@
            &&& command->change->item@ == pass@.user_id
        },
        pass@.stage is ReleaseInvites ==> {
            &&& command->UpdateMany_collection@ == "invites"@
            &&& filters_by(command->UpdateMany_filter, "claimed_by"@, pass@.user_id)
            &&& command->change is Remove
            &&& command->change->Remove_path@ == "claimed_by"@
        },
        pass@.stage is PullRelations ==> {
            &&& command->UpdateMany_collection@ == "users"@
            &&& command->UpdateMany_filter.all@.len() == 1
            &&& command->UpdateMany_filter.all@[0].path@ == "relations"@
            &&& command->UpdateMany_filter.all@[0].test is HasElement
            &&& command->UpdateMany_filter.all@[0].test->HasElement_0@.len() == 1
            &&& command->UpdateMany_filter.all@[0].test->HasElement_0@[0].0@ == "_id"@
            &&& command->UpdateMany_filter.all@[0].test->HasElement_0@[0].1@ == pass@.user_id
            &&& command->UpdateMany_filter.any@.len() == 0
            &&& command->change is PullElement
            &&& command->change->PullElement_path@ == "relations"@
            &&& command->change->id@ == pass@.user_id
        },
{
    let user_id = pass@.user_id;
    let filter = command->UpdateMany_filter;
    match pass@.stage {
        Stage::LeaveGroups => {
            let all = seq![reads("channel_type"@, "Group"@), reads("recipients"@, user_id)];
            lemma_plain_filter(filter, all);
            assert(filter.all@[0]@ == all[0]);
            assert(filter.all@[1]@ == all[1]);
        },
        Stage::ReleaseInvites => {
            lemma_filters_by(filter, "claimed_by"@, user_id);
        },
        _ => {
            let asked = ConditionView {
                path: "relations"@,
                test: TestView::HasElement(seq![("_id"@, user_id)]),
            };
            lemma_plain_filter(filter, seq![asked]);
            assert(filter.all@[0]@ == asked);
            let fields = filter.all@[0].test->HasElement_0@;
            let said = fields.map_values(|field: (String, String)| (field.0@, field.1@));
            assert(said == seq![("_id"@, user_id)]);
            assert(said.len() == fields.len());
            assert(said[0] == (fields[0].0@, fields[0].1@));
        },
    }
}

/// A pass has a command exactly until it is finished.
pub proof fn law_only_a_finished_pass_rests(pass: &ErasurePass, command: Option<Command>)
    requires
        call_ensures(ErasurePass::command, (pass,), command),
    ensures
        command is None <==> pass@.stage is Finished,
{
}

/// Each number that the database answers with is counted in its own place, added where several
/// commands remove the same kind of thing, and nothing else of the report changes.
pub proof fn law_every_number_has_its_place(
    pass: &mut ErasurePass,
    reply: Reply,
    before: ErasureReport,
    after: ErasureReport,
)
    requires
        fits(old(pass)@, reply@),
        call_ensures(ErasurePass::advance, (pass, reply), ()),
        call_ensures(ErasurePass::into_report, (*old(pass),), before),
        call_ensures(ErasurePass::into_report, (*final(pass),), after),
    ensures
        ({
            let stage = old(pass)@.stage;
            let number = reply->Number_0;
            &&& after.user_id@ == before.user_id@
            &&& after.policy_version@ == before.policy_version@
            &&& after.attachments_withheld_reported == if stage is CountWithheld {
                number
            } else {
                before.attachments_withheld_reported
            }
            &&& after.attachments_marked == if stage is CountMarked {
                number
            } else {
                before.attachments_marked
            }
            &&& after.messages_deleted == if stage is DeleteAuthored {
                number as int
            } else if stage is DeleteAbout || stage is DeletePrivateMessages {
                before.messages_deleted + number
            } else {
                before.messages_deleted as int
            }
            &&& after.system_references_scrubbed == if stage is ScrubBy || stage is ScrubFrom
                || stage is ScrubTo {
                before.system_references_scrubbed + number
            } else {
                before.system_references_scrubbed as int
            }
            &&& after.channels_deleted == if stage is DeletePrivate {
                number
            } else {
                before.channels_deleted
            }
            &&& after.groups_departed == if stage is LeaveGroups {
                number
            } else {
                before.groups_departed
            }
            &&& after.memberships_deleted == if stage is DeleteMemberships {
                number
            } else {
                before.memberships_deleted
            }
            &&& after.unreads_deleted == if stage is DeleteUnreads {
                number
            } else {
                before.unreads_deleted
            }
            &&& after.invites_deleted == if stage is DeleteInvites {
                number
            } else {
                before.invites_deleted
            }
            &&& after.bots_deleted == if stage is DeleteBots {
                number
            } else {
                before.bots_deleted
            }
            &&& after.relations_pulled == if stage is PullRelations {
                number
            } else {
                before.relations_pulled
            }
            &&& after.sessions_deleted == if stage is DeleteBotSessions {
                number as int
            } else if stage is DeleteSessions {
                before.sessions_deleted + number
            } else {
                before.sessions_deleted as int
            }
        }),
{
}

/// The ids that the database lists are kept for the stages that need them, and nothing else is
/// listed; the user stays the same.
pub proof fn law_listed_ids_are_kept(pass: &mut ErasurePass, reply: Reply)
    requires
        fits(old(pass)@, reply@),
        call_ensures(ErasurePass::advance, (pass, reply), ()),
    ensures
        final(pass)@.user_id == old(pass)@.user_id,
        final(pass)@.message_ids == if old(pass)@.stage is ListMessages {
            texts(reply->Ids_0@)
        } else {
            old(pass)@.message_ids
        },
        final(pass)@.private_channels == if old(pass)@.stage is ListPrivate {
            texts(reply->Ids_0@)
        } else {
            old(pass)@.private_channels
        },
        final(pass)@.bot_ids == if old(pass)@.stage is ListBots {
            texts(reply->Ids_0@)
        } else {
            old(pass)@.bot_ids
        },
{
}

/// A pass takes its stages in turn: content, then what refers to the user, then the user. The
/// stages about private channels and about bots are left out where none were listed.
pub proof fn law_stages_are_taken_in_turn(pass: &mut ErasurePass, reply: Reply)
    requires
        fits(old(pass)@, reply@),
        call_ensures(ErasurePass::advance, (pass, reply), ()),
    ensures
        ({
            let stage = old(pass)@.stage;
            let next = final(pass)@.stage;
            &&& stage is ListMessages ==> next is CountWithheld
            &&& stage is CountWithheld ==> next is CountMarked
            &&& stage is CountMarked ==> next is MarkAttachments
            &&& stage is MarkAttachments ==> next is DeleteAuthored
            &&& stage is DeleteAuthored ==> next is DeleteAbout
            &&& stage is DeleteAbout ==> next is ScrubBy
            &&& stage is ScrubBy ==> next is ScrubFrom
            &&& stage is ScrubFrom ==> next is ScrubTo
            &&& stage is ScrubTo ==> next is ListPrivate
            &&& stage is ListPrivate && reply->Ids_0@.len() > 0 ==> next is DeletePrivateMessages
            &&& stage is ListPrivate && reply->Ids_0@.len() == 0 ==> next is LeaveGroups
            &&& stage is DeletePrivateMessages ==> next is DeletePrivateObjects
            &&& stage is DeletePrivateObjects ==> next is DeletePrivate
            &&& stage is DeletePrivate ==> next is LeaveGroups
            &&& stage is LeaveGroups ==> next is DeleteMemberships
            &&& stage is DeleteMemberships ==> next is DeleteUnreads
            &&& stage is DeleteUnreads ==> next is DeleteInvites
            &&& stage is DeleteInvites ==> next is ReleaseInvites
            &&& stage is ReleaseInvites ==> next is ListBots
            &&& stage is ListBots && reply->Ids_0@.len() > 0 ==> next is DeleteBotUsers
            &&& stage is ListBots && reply->Ids_0@.len() == 0 ==> next is PullRelations
            &&& stage is DeleteBotUsers ==> next is DeleteBotSessions
            &&& stage is DeleteBotSessions ==> next is DeleteBots
            &&& stage is DeleteBots ==> next is PullRelations
            &&& stage is PullRelations ==> next is DeleteSessions
            &&& stage is DeleteSessions ==> next is DeleteUser
            &&& stage is DeleteUser ==> next is Finished
            &&& stage is Finished ==> next is Finished
        }),
{
    if reply is Ids {
        assert(texts(reply->Ids_0@).len() == reply->Ids_0@.len());
    }
}

/// A list is answered with ids and a count with a number that the report has room for; anything
/// will do where nothing is recorded.
pub proof fn law_replies_are_of_the_kind_asked_for(
    pass: &ErasurePass,
    reply: &Reply,
    result: bool,
    report: ErasureReport,
)
    requires
        call_ensures(ErasurePass::accepts, (pass, reply), result),
        call_ensures(ErasurePass::into_report, (*pass,), report),
    ensures
        ({
            let stage = pass@.stage;
            let lists = stage is ListMessages || stage is ListPrivate || stage is ListBots;
            let free = stage is MarkAttachments || stage is DeletePrivateObjects || stage is
                ReleaseInvites || stage is DeleteBotUsers || stage is DeleteUser || stage is
                Finished;
            let counted = if stage is DeleteAbout || stage is DeletePrivateMessages {
                report.messages_deleted as int
            } else if stage is ScrubBy || stage is ScrubFrom || stage is ScrubTo {
                report.system_references_scrubbed as int
            } else if stage is DeleteSessions {
                report.sessions_deleted as int
            } else {
                0
            };
            &&& lists ==> (result <==> *reply is Ids)
            &&& free ==> result
            &&& !lists && !free ==> (result <==> *reply is Number && counted + (*reply)->Number_0
                <= u64::MAX)
        }),
{
}

/// The failure of a command is reported under its operation and its collection; marking and
/// clearing up report their own.
pub proof fn law_failed_command_names_its_operation(command: &Command, result: Option<Error>)
    requires
        call_ensures(Command::failure, (command,), result),
    ensures
        result is None <==> *command is MarkAttachments || *command is DeleteChannelObjects,
        result is Some ==> result->0 is DatabaseError,
        *command is ListIds ==> result->0->operation@ == "distinct"@ && result->0->collection@
            == (*command)->ListIds_collection@,
        *command is Count ==> result->0->operation@ == "count_documents"@ && result->0->collection@
            == (*command)->Count_collection@,
        *command is DeleteMany ==> result->0->operation@ == "delete_many"@
            && result->0->collection@ == (*command)->DeleteMany_collection@,
        *command is DeleteOne ==> result->0->operation@ == "delete_one"@ && result->0->collection@
            == (*command)->DeleteOne_collection@,
        *command is UpdateMany ==> result->0->operation@ == "update_many"@
            && result->0->collection@ == (*command)->UpdateMany_collection@,
{
}

/// A report without anything in it names nobody and counts nothing.
pub proof fn law_default_report_counts_nothing(report: ErasureReport)
    requires
        call_ensures(<ErasureReport as Default>::default, (), report),
    ensures
        report.user_id@.len() == 0,
        report.policy_version@.len() == 0,
        report.attachments_marked == 0,
        report.messages_deleted == 0,
        report.channels_deleted == 0,
        report.groups_departed == 0,
        report.memberships_deleted == 0,
        report.unreads_deleted == 0,
        report.invites_deleted == 0,
        report.bots_deleted == 0,
        report.relations_pulled == 0,
        report.sessions_deleted == 0,
        report.system_references_scrubbed == 0,
        report.attachments_withheld_reported == 0,
{
}

} // verus!
