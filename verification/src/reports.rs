use vstd::prelude::*;
use vstd::string::StringExecFns;

use crate::error::{Error, Result};
use crate::ids::{is_ulid, new_ulid};
use crate::query::copied;
use crate::text::{same, texts};
use crate::users::User;

verus! {

/// The fewest characters that a reporter adds.
pub const MIN_CONTEXT: u64 = 0;

/// The most characters that a reporter may add.
pub const MAX_CONTEXT: u64 = 1000;

/// Who an announcement comes from.
pub const ANNOUNCER: &'static str = "Safety";

/// What is reported. What else is said of it, such as the reason, is kept as it is.
#[derive(Debug, PartialEq, Eq)]
pub enum ReportedContent<C> {
    Message { id: String, rest: C },
    Server { id: String, rest: C },
    /// A user, and the message that shows why
    User { id: String, message_id: Option<String>, rest: C },
}

/// A report as a member files it.
#[derive(Debug, PartialEq, Eq)]
pub struct DataReportContent<C> {
    /// Content being reported
    pub content: ReportedContent<C>,
    /// Additional report description
    pub additional_context: String,
}

/// Whether anybody has looked at a report.
#[derive(Debug, Clone, Copy, PartialEq, Eq, Structural)]
pub enum ReportStatus {
    Created,
}

/// A report as it is kept.
#[derive(Debug, PartialEq, Eq)]
pub struct Report<C> {
    pub id: String,
    pub author_id: String,
    pub content: ReportedContent<C>,
    pub additional_context: String,
    pub status: ReportStatus,
    pub notes: String,
}

/// What reported content looked like, kept for a report.
#[derive(Debug, PartialEq, Eq)]
pub struct Snapshot<S> {
    pub id: String,
    pub report_id: String,
    pub content: S,
}

/// `validator::validate_length` without an exact length: whether a string has at least `min`
/// and at most `max` characters.
#[verifier::external_body]
fn length_within(value: &String, min: u64, max: u64) -> (result: bool)
    ensures
        result == (min <= value@.len() <= max),
{
    validator::validate_length(value, Some(min), Some(max), None)
}

/// `validator::ValidationErrors` and its text form, for a field whose length is out of bounds.
/// The text lists the parameters in the order in which a hash map is walked, so nothing is
/// claimed of it.
#[verifier::external_body]
fn length_error(field: &'static str, value: &String, min: u64, max: u64) -> (text: String) {
    let mut error = validator::ValidationError::new("length");
    error.add_param(std::borrow::Cow::from("min"), &min);
    error.add_param(std::borrow::Cow::from("max"), &max);
    error.add_param(std::borrow::Cow::from("value"), value);
    let mut errors = validator::ValidationErrors::new();
    errors.add(field, error);
    errors.to_string()
}

impl<C> DataReportContent<C> {
    /// Whether the description is not too long.
    pub fn validate(&self) -> (result: Result<()>)
        ensures
            result is Ok <==> self.additional_context@.len() <= MAX_CONTEXT,
            result matches Err(error) ==> error is FailedValidation,
    {
        if length_within(&self.additional_context, MIN_CONTEXT, MAX_CONTEXT) {
            Ok(())
        } else {
            Err(
                Error::FailedValidation {
                    error: length_error(
                        "additional_context",
                        &self.additional_context,
                        MIN_CONTEXT,
                        MAX_CONTEXT,
                    ),
                },
            )
        }
    }
}

/// The message to take along as evidence, if it can still be found.
pub open spec fn context_of<C>(content: ReportedContent<C>) -> Option<String> {
    match content {
        ReportedContent::User { message_id, .. } => message_id,
        _ => None,
    }
}

/// What was secured for a report: what the content looked like, and its files.
#[derive(Debug, PartialEq, Eq)]
pub struct Evidence<S> {
    pub snapshots: Vec<S>,
    pub files: Vec<String>,
}

/// Put together what was secured: what is reported first, then the message that came with it.
pub fn evidence<S>(
    reported: (S, Vec<String>),
    context: Option<(S, Vec<String>)>,
) -> (result: Evidence<S>)
    ensures
        match context {
            Some(message) => result.snapshots@ == seq![reported.0, message.0] && result.files@
                == reported.1@ + message.1@,
            None => result.snapshots@ == seq![reported.0] && result.files@ == reported.1@,
        },
{
    let (snapshot, files) = reported;
    match context {
        Some((message_snapshot, message_files)) => {
            let mut all = files;
            let ghost first = all@;
            let ghost second = message_files@;
            for file in it: message_files
                invariant
                    it.seq() == second,
                    all@ == first + second.take(it.index()),
            {
                assert(second.take(it.index() + 1) =~= second.take(it.index()).push(file));
                all.push(file);
                assert(all@ =~= first + second.take(it.index() + 1));
            }
            assert(second.take(second.len() as int) =~= second);
            Evidence { snapshots: vec![snapshot, message_snapshot], files: all }
        },
        None => Evidence { snapshots: vec![snapshot], files },
    }
}

/// What is to be done to file a report.
#[derive(Debug, PartialEq, Eq)]
pub enum ReportCommand<S> {
    /// Keep a file from being purged
    MarkReported { file: String },
    /// Keep what the content looked like
    InsertSnapshot { snapshot: Snapshot<S> },
    /// Keep the report
    InsertReport,
    /// Tell the moderators of the report
    Announce,
    /// Tell whoever listens of the report
    PublishEvent,
}

/// Whether a failure of a command is the failure of the report. A report that is kept has
/// succeeded, whether it could be announced or not.
pub open spec fn is_essential<S>(command: ReportCommand<S>) -> bool {
    !(command is Announce) && !(command is PublishEvent)
}

impl<S> ReportCommand<S> {
    /// Whether a failure of this is the failure of the report.
    pub fn fails_report(&self) -> (result: bool)
        ensures
            result == is_essential(*self),
    {
        match self {
            ReportCommand::Announce | ReportCommand::PublishEvent => false,
            _ => true,
        }
    }
}

/// Whether a report is a new one by a user.
pub open spec fn is_new_report<C>(
    report: Report<C>,
    user: User,
    data: DataReportContent<C>,
) -> bool {
    &&& is_ulid(report.id@)
    &&& report.author_id == user.id
    &&& report.content == data.content
    &&& report.additional_context == data.additional_context
    &&& report.status == ReportStatus::Created
    &&& report.notes@ == Seq::<char>::empty()
}

/// Whether commands file a report: every file is marked, every snapshot kept under the id of
/// the report, the report kept, and only then is anybody told.
pub open spec fn files_report<S>(
    commands: Seq<ReportCommand<S>>,
    report_id: String,
    snapshots: Seq<S>,
    files: Seq<String>,
) -> bool {
    let kept = (files.len() + snapshots.len()) as int;
    &&& commands.len() == kept + 3
    &&& forall|i: int|
        0 <= i < files.len() ==> #[trigger] commands[i] == (ReportCommand::<S>::MarkReported {
            file: files[i],
        })
    &&& forall|i: int|
        files.len() <= i < kept ==> ((#[trigger] commands[i]) matches ReportCommand::InsertSnapshot {
            snapshot,
        } && is_ulid(snapshot.id@) && snapshot.report_id == report_id && snapshot.content
            == snapshots[i - files.len()])
    &&& commands[kept] == ReportCommand::<S>::InsertReport
    &&& commands[kept + 1] == ReportCommand::<S>::Announce
    &&& commands[kept + 2] == ReportCommand::<S>::PublishEvent
}

/// The commands that file a report, in order.
pub fn file_report<S, C>(report: &Report<C>, secured: Evidence<S>) -> (commands: Vec<
    ReportCommand<S>,
>)
    ensures
        files_report(commands@, report.id, secured.snapshots@, secured.files@),
{
    let mut commands: Vec<ReportCommand<S>> = Vec::new();
    let ghost files = secured.files@;
    let ghost snapshots = secured.snapshots@;
    for file in it: secured.files
        invariant
            it.seq() == files,
            commands@.len() == it.index(),
            forall|i: int|
                0 <= i < it.index() ==> #[trigger] commands@[i] == (ReportCommand::<
                    S,
                >::MarkReported { file: files[i] }),
    {
        assert(file == files[it.index()]);
        commands.push(ReportCommand::MarkReported { file });
    }
    for content in it: secured.snapshots
        invariant
            it.seq() == snapshots,
            commands@.len() == files.len() + it.index(),
            forall|i: int|
                0 <= i < files.len() ==> #[trigger] commands@[i] == (ReportCommand::<
                    S,
                >::MarkReported { file: files[i] }),
            forall|i: int|
                files.len() <= i < files.len() + it.index() ==> ((
                #[trigger] commands@[i]) matches ReportCommand::InsertSnapshot { snapshot }
                    && is_ulid(snapshot.id@) && snapshot.report_id == report.id && snapshot.content
                    == snapshots[i - files.len()]),
    {
        assert(content == snapshots[it.index()]);
        let snapshot = Snapshot { id: new_ulid(), report_id: report.id.clone(), content };
        commands.push(ReportCommand::InsertSnapshot { snapshot });
    }
    commands.push(ReportCommand::InsertReport);
    commands.push(ReportCommand::Announce);
    commands.push(ReportCommand::PublishEvent);
    commands
}

/// Nobody is told of a report before it is kept, and once it is kept nothing can fail it.
pub proof fn law_report_is_kept_first<S>(
    commands: Seq<ReportCommand<S>>,
    report_id: String,
    snapshots: Seq<S>,
    files: Seq<String>,
    i: int,
)
    requires
        files_report(commands, report_id, snapshots, files),
        0 <= i < commands.len(),
    ensures
        is_essential(commands[i]) <==> i <= files.len() + snapshots.len(),
        commands[i] is InsertReport <==> i == files.len() + snapshots.len(),
{
}

/// How far the filing of a report has come, and what it takes next.
#[derive(Debug, PartialEq, Eq)]
pub enum ReportStage<S> {
    /// What is reported is to be found, and whose it is: the author of a message, the owner of a
    /// server, a user themselves
    Finding,
    /// The message that came with it is to be found
    FindingContext { message_id: String },
    /// What is reported is to be secured, and then the message if it was found
    Securing { with_context: bool },
    /// The message is to be secured
    SecuringContext { snapshot: S, files: Vec<String> },
    /// The first of these commands is to be carried out
    Filing { commands: Vec<ReportCommand<S>> },
    /// The report is filed, or why it is not
    Finished { outcome: Result<()> },
}

/// What came of what a stage asked for.
#[derive(Debug, PartialEq, Eq)]
pub enum ReportReply<S> {
    /// It could not be done
    Refused { error: Error },
    /// It was found, and this is whose it is
    Found { owner_id: String },
    /// What it looked like, and its files
    Secured { snapshot: S, files: Vec<String> },
    /// It is done
    Done,
}

/// The filing of a report.
#[derive(Debug, PartialEq, Eq)]
pub struct Filing<S, C> {
    pub user: User,
    /// The report as it is to be kept
    pub report: Report<C>,
    pub stage: ReportStage<S>,
}

/// Whether a filing has ended with an error.
pub open spec fn dismissed<S>(stage: ReportStage<S>, error: Error) -> bool {
    stage matches ReportStage::Finished { outcome } && outcome == Err::<(), Error>(error)
}

/// Whether a filing has come to its commands, all of which are still to be carried out.
pub open spec fn begins_filing<S, C>(
    stage: ReportStage<S>,
    filing: Filing<S, C>,
    snapshots: Seq<S>,
    files: Seq<String>,
) -> bool {
    stage matches ReportStage::Filing { commands } && files_report(
        commands@,
        filing.report.id,
        snapshots,
        files,
    )
}

/// Whether one stage follows another on a reply. Nobody may report themselves or what is theirs.
/// A message that came along and cannot be found is left out. A command that fails fails the
/// report, unless the report is kept already.
pub open spec fn report_follows<S, C>(
    filing: Filing<S, C>,
    reply: ReportReply<S>,
    next: ReportStage<S>,
) -> bool {
    match filing.stage {
        ReportStage::Finding => match reply {
            ReportReply::Found { owner_id } => if owner_id@ == filing.user.id@ {
                dismissed(next, Error::CannotReportYourself)
            } else {
                match context_of(filing.report.content) {
                    Some(message_id) => next == (ReportStage::<S>::FindingContext { message_id }),
                    None => next == (ReportStage::<S>::Securing { with_context: false }),
                }
            },
            ReportReply::Refused { error } => dismissed(next, error),
            _ => dismissed(next, Error::InternalError),
        },
        ReportStage::FindingContext { .. } => next == (ReportStage::<S>::Securing {
            with_context: reply is Found,
        }),
        ReportStage::Securing { with_context } => match reply {
            ReportReply::Secured { snapshot, files } => if with_context {
                next == (ReportStage::SecuringContext { snapshot, files })
            } else {
                begins_filing(next, filing, seq![snapshot], files@)
            },
            ReportReply::Refused { error } => dismissed(next, error),
            _ => dismissed(next, Error::InternalError),
        },
        ReportStage::SecuringContext { snapshot, files } => match reply {
            ReportReply::Secured { snapshot: message, files: message_files } => begins_filing(
                next,
                filing,
                seq![snapshot, message],
                files@ + message_files@,
            ),
            ReportReply::Refused { error } => dismissed(next, error),
            _ => dismissed(next, Error::InternalError),
        },
        ReportStage::Filing { commands } => if commands@.len() == 0 {
            next == (ReportStage::<S>::Finished { outcome: Ok::<(), Error>(()) })
        } else if is_essential(commands@[0]) && !(reply is Done) {
            dismissed(
                next,
                match reply {
                    ReportReply::Refused { error } => error,
                    _ => Error::InternalError,
                },
            )
        } else if commands@.len() == 1 {
            next == (ReportStage::<S>::Finished { outcome: Ok::<(), Error>(()) })
        } else {
            next matches ReportStage::Filing { commands: rest } && rest@ == commands@.drop_first()
        },
        ReportStage::Finished { .. } => next == filing.stage,
    }
}

/// Whether a report is kept, and at most the telling of it is left.
pub open spec fn is_kept<S>(stage: ReportStage<S>) -> bool {
    match stage {
        ReportStage::Filing { commands } => forall|i: int|
            0 <= i < commands@.len() ==> !is_essential(#[trigger] commands@[i]),
        ReportStage::Finished { outcome } => outcome is Ok,
        _ => false,
    }
}

/// A member who reports something succeeds, even if it cannot be announced: keeping the report
/// is the last thing that can fail, and after it every reply whatever leads to success.
pub proof fn law_kept_report_succeeds<S, C>(
    filing: Filing<S, C>,
    reply: ReportReply<S>,
    next: ReportStage<S>,
)
    requires
        report_follows(filing, reply, next),
    ensures
        is_kept(filing.stage) ==> is_kept(next),
        filing.stage matches ReportStage::Filing { commands } ==> (next matches
            ReportStage::Filing { commands: rest } ==> rest@.len() + 1 == commands@.len()),
        !is_kept(filing.stage) && is_kept(next) ==> (filing.stage matches ReportStage::Filing {
            commands,
        } && reply is Done && is_essential(commands@[0])),
{
    if let ReportStage::Filing { commands } = filing.stage {
        if let ReportStage::Filing { commands: rest } = next {
            assert(rest@ == commands@.drop_first());
            assert forall|i: int| 0 <= i < rest@.len() implies rest@[i] == commands@[i + 1] by {}
            if is_kept(next) && !is_essential(commands@[0]) {
                assert forall|i: int| 0 <= i < commands@.len() implies !is_essential(
                    #[trigger] commands@[i],
                ) by {
                    if i > 0 {
                        assert(rest@[i - 1] == commands@[i]);
                    }
                }
            }
        }
    }
}

fn dismiss<S>(error: Error) -> (stage: ReportStage<S>)
    ensures
        dismissed(stage, error),
{
    ReportStage::Finished { outcome: Err(error) }
}

/// Report a piece of content to the moderation team. Bots cannot, and there is a limit to what
/// they add.
pub fn report_content<S, C>(user: User, data: DataReportContent<C>) -> (filing: Filing<S, C>)
    ensures
        filing.user == user,
        is_new_report(filing.report, user, data),
        data.additional_context@.len() > MAX_CONTEXT ==> (
        filing.stage matches ReportStage::Finished { outcome } && outcome matches Err(error)
            && error is FailedValidation),
        data.additional_context@.len() <= MAX_CONTEXT && user.bot ==> dismissed(
            filing.stage,
            Error::IsBot,
        ),
        data.additional_context@.len() <= MAX_CONTEXT && !user.bot ==> filing.stage
            == ReportStage::<S>::Finding,
{
    let stage: ReportStage<S> = match data.validate() {
        Ok(()) => if user.bot {
            dismiss(Error::IsBot)
        } else {
            ReportStage::Finding
        },
        Err(error) => dismiss(error),
    };
    let report = Report {
        id: new_ulid(),
        author_id: user.id.clone(),
        content: data.content,
        additional_context: data.additional_context,
        status: ReportStatus::Created,
        notes: String::new(),
    };
    Filing { user, report, stage }
}

impl<S, C> Filing<S, C> {
    /// Take up what came of what the stage asked for.
    pub fn advance(self, reply: ReportReply<S>) -> (next: Filing<S, C>)
        ensures
            next.user == self.user,
            next.report == self.report,
            report_follows(self, reply, next.stage),
    {
        let Filing { user, report, stage } = self;
        let next = match stage {
            ReportStage::Finding => match reply {
                ReportReply::Found { owner_id } => if same(owner_id.as_str(), user.id.as_str()) {
                    dismiss(Error::CannotReportYourself)
                } else {
                    match &report.content {
                        ReportedContent::User { message_id: Some(id), .. } =>
                            ReportStage::FindingContext { message_id: id.clone() },
                        _ => ReportStage::Securing { with_context: false },
                    }
                },
                ReportReply::Refused { error } => dismiss(error),
                _ => dismiss(Error::InternalError),
            },
            ReportStage::FindingContext { .. } => {
                let with_context = match reply {
                    ReportReply::Found { .. } => true,
                    _ => false,
                };
                ReportStage::Securing { with_context }
            },
            ReportStage::Securing { with_context } => match reply {
                ReportReply::Secured { snapshot, files } => if with_context {
                    ReportStage::SecuringContext { snapshot, files }
                } else {
                    let secured = evidence((snapshot, files), None);
                    ReportStage::Filing { commands: file_report(&report, secured) }
                },
                ReportReply::Refused { error } => dismiss(error),
                _ => dismiss(Error::InternalError),
            },
            ReportStage::SecuringContext { snapshot, files } => match reply {
                ReportReply::Secured { snapshot: message, files: message_files } => {
                    let secured = evidence((snapshot, files), Some((message, message_files)));
                    ReportStage::Filing { commands: file_report(&report, secured) }
                },
                ReportReply::Refused { error } => dismiss(error),
                _ => dismiss(Error::InternalError),
            },
            ReportStage::Filing { commands } => {
                let mut rest = commands;
                if rest.len() == 0 {
                    ReportStage::Finished { outcome: Ok(()) }
                } else {
                    let command = rest.remove(0);
                    assert(rest@ =~= commands@.drop_first());
                    let done = match &reply {
                        ReportReply::Done => true,
                        _ => false,
                    };
                    if command.fails_report() && !done {
                        match reply {
                            ReportReply::Refused { error } => dismiss(error),
                            _ => dismiss(Error::InternalError),
                        }
                    } else if rest.len() == 0 {
                        ReportStage::Finished { outcome: Ok(()) }
                    } else {
                        ReportStage::Filing { commands: rest }
                    }
                }
            },
            ReportStage::Finished { outcome } => ReportStage::Finished { outcome },
        };
        Filing { user, report, stage: next }
    }
}

/// Where reports are announced, and to whom.
#[derive(Debug, PartialEq, Eq)]
pub struct SafetyConfig {
    /// Channel to announce in; empty to announce nowhere
    pub reports_channel: String,
    /// Roles whose members are notified
    pub reports_mention_roles: Vec<String>,
}

/// A message to the moderators.
#[derive(Debug, PartialEq, Eq)]
pub struct Announcement {
    pub content: String,
    pub mentions: Option<Vec<String>>,
    pub role_mentions: Option<Vec<String>>,
}

/// What kind of thing was reported.
pub open spec fn kind_of<C>(content: ReportedContent<C>) -> Seq<char> {
    match content {
        ReportedContent::Message { .. } => "message"@,
        ReportedContent::Server { .. } => "server"@,
        ReportedContent::User { .. } => "user"@,
    }
}

/// The id of what was reported.
pub open spec fn target_of<C>(content: ReportedContent<C>) -> Seq<char> {
    match content {
        ReportedContent::Message { id, .. } => id@,
        ReportedContent::Server { id, .. } => id@,
        ReportedContent::User { id, .. } => id@,
    }
}

/// The text of an announcement: ids and the reporter's own words, never the reported content,
/// which would be published once more.
pub open spec fn announced<C>(report: Report<C>, reporter_id: Seq<char>) -> Seq<char> {
    let kind = kind_of(report.content);
    let ids = "🚩 New "@ + kind + " report\n\nReported by: <@"@ + reporter_id + ">\nTarget "@ + kind
        + " id: `"@ + target_of(report.content) + "`\nReport id: `"@ + report.id@ + "`"@;
    if report.additional_context@.len() == 0 {
        ids
    } else {
        ids + ("\n\nContext: "@ + report.additional_context@)
    }
}

/// The members to notify: all but the reporter.
pub open spec fn notified(members: Seq<Seq<char>>, reporter_id: Seq<char>) -> Seq<Seq<char>> {
    members.filter(crate::sponsor::other_than(reporter_id))
}

/// The announcement of a report. The members with the configured roles are given as far as they
/// could be found out; without them it is announced all the same.
pub fn announcement<C>(
    config: &SafetyConfig,
    report: &Report<C>,
    reporter: &User,
    members: &Vec<String>,
) -> (result: Announcement)
    ensures
        announces(result, *config, *report, reporter.id@, texts(members@)),
{
    let mut mentions: Vec<String> = Vec::new();
    let ghost all = texts(members@);
    let ghost others = crate::sponsor::other_than(reporter.id@);
    assert(all.take(0).filter(others) =~= Seq::empty()) by {
        reveal(Seq::filter);
    }
    assert(texts(mentions@) =~= Seq::empty());
    for i in 0..members.len()
        invariant
            all == texts(members@),
            others == crate::sponsor::other_than(reporter.id@),
            texts(mentions@) == all.take(i as int).filter(others),
    {
        let ghost part = all.take(i + 1);
        assert(part.drop_last() =~= all.take(i as int));
        assert(part.last() == members@[i as int]@);
        proof {
            reveal(Seq::filter);
        }
        if !same(members[i].as_str(), reporter.id.as_str()) {
            let ghost earlier = mentions@;
            mentions.push(members[i].clone());
            assert(texts(mentions@) =~= texts(earlier).push(members@[i as int]@));
        }
    }
    assert(all.take(all.len() as int) =~= all);
    let (kind, target): (&str, &str) = match &report.content {
        ReportedContent::Message { id, .. } => ("message", id.as_str()),
        ReportedContent::Server { id, .. } => ("server", id.as_str()),
        ReportedContent::User { id, .. } => ("user", id.as_str()),
    };
    let mut content = "🚩 New ".to_owned();
    content.append(kind);
    content.append(" report\n\nReported by: <@");
    content.append(reporter.id.as_str());
    content.append(">\nTarget ");
    content.append(kind);
    content.append(" id: `");
    content.append(target);
    content.append("`\nReport id: `");
    content.append(report.id.as_str());
    content.append("`");
    if !report.additional_context.as_str().is_empty() {
        let context = crate::text::join("\n\nContext: ", report.additional_context.as_str());
        content.append(context.as_str());
    }
    let mentioned = if mentions.len() == 0 {
        None
    } else {
        Some(mentions)
    };
    let role_mentions = if config.reports_mention_roles.len() == 0 {
        None
    } else {
        Some(copied(&config.reports_mention_roles))
    };
    Announcement { content, mentions: mentioned, role_mentions }
}

/// How far the announcing of a report has come, and what it takes next.
#[derive(Debug, PartialEq, Eq)]
pub enum AnnounceStage {
    /// The channel is to be found, and the server that it is in
    FetchingChannel { channel_id: String },
    /// The members of the server with the configured roles are to be found
    FetchingMembers { server_id: String },
    /// The announcement is to be sent to the channel
    Sending { announcement: Announcement },
    /// There is nothing more to do
    Finished,
}

/// What came of what a stage asked for.
#[derive(Debug, PartialEq, Eq)]
pub enum AnnounceReply {
    /// It could not be done
    Failed,
    /// The channel was found
    Channel { server_id: Option<String> },
    /// The members were found
    Members { ids: Vec<String> },
    /// It is done
    Done,
}

/// The announcing of a report in the configured channel.
///
/// It never fails the report: a member must always succeed in reporting something, even if it
/// cannot be announced.
#[derive(Debug, PartialEq, Eq)]
pub struct Announcing<'a, C> {
    pub config: SafetyConfig,
    pub report: &'a Report<C>,
    pub reporter: User,
    pub stage: AnnounceStage,
}

/// Whether an announcement is that of a report to some members.
pub open spec fn announces<C>(
    announcement: Announcement,
    config: SafetyConfig,
    report: Report<C>,
    reporter_id: Seq<char>,
    members: Seq<Seq<char>>,
) -> bool {
    &&& announcement.content@ == announced(report, reporter_id)
    &&& match announcement.mentions {
        Some(list) => list@.len() != 0 && texts(list@) == notified(members, reporter_id),
        None => notified(members, reporter_id).len() == 0,
    }
    &&& match announcement.role_mentions {
        Some(list) => list@.len() != 0 && list@ == config.reports_mention_roles@,
        None => config.reports_mention_roles@.len() == 0,
    }
}

/// Whether one stage follows another on a reply. Without the channel there is no announcement;
/// without the members it is sent all the same.
pub open spec fn announce_follows<C>(
    announcing: Announcing<C>,
    reply: AnnounceReply,
    next: AnnounceStage,
) -> bool {
    let config = announcing.config;
    let report = *announcing.report;
    let reporter_id = announcing.reporter.id@;
    match announcing.stage {
        AnnounceStage::FetchingChannel { .. } => match reply {
            AnnounceReply::Channel { server_id } => if config.reports_mention_roles@.len() != 0
                && server_id is Some {
                next == (AnnounceStage::FetchingMembers { server_id: server_id->0 })
            } else {
                next matches AnnounceStage::Sending { announcement } && announces(
                    announcement,
                    config,
                    report,
                    reporter_id,
                    Seq::empty(),
                )
            },
            _ => next == AnnounceStage::Finished,
        },
        AnnounceStage::FetchingMembers { .. } => next matches AnnounceStage::Sending {
            announcement,
        } && announces(
            announcement,
            config,
            report,
            reporter_id,
            match reply {
                AnnounceReply::Members { ids } => texts(ids@),
                _ => Seq::empty(),
            },
        ),
        AnnounceStage::Sending { .. } => next == AnnounceStage::Finished,
        AnnounceStage::Finished => next == AnnounceStage::Finished,
    }
}

/// Announce a report in the configured channel; nowhere if none is configured.
pub fn announce_report<'a, C>(
    config: SafetyConfig,
    report: &'a Report<C>,
    reporter: User,
) -> (announcing: Announcing<'a, C>)
    ensures
        announcing.config == config,
        announcing.report == report,
        announcing.reporter == reporter,
        announcing.stage == if config.reports_channel@.len() == 0 {
            AnnounceStage::Finished
        } else {
            AnnounceStage::FetchingChannel { channel_id: config.reports_channel }
        },
{
    let stage = if config.reports_channel.as_str().is_empty() {
        AnnounceStage::Finished
    } else {
        AnnounceStage::FetchingChannel { channel_id: config.reports_channel.clone() }
    };
    Announcing { config, report, reporter, stage }
}

impl<'a, C> Announcing<'a, C> {
    /// Take up what came of what the stage asked for.
    pub fn advance(self, reply: AnnounceReply) -> (next: Announcing<'a, C>)
        ensures
            next.config == self.config,
            next.report == self.report,
            next.reporter == self.reporter,
            announce_follows(self, reply, next.stage),
    {
        let Announcing { config, report, reporter, stage } = self;
        let nobody: Vec<String> = Vec::new();
        assert(texts(nobody@) =~= Seq::empty());
        let next = match stage {
            AnnounceStage::FetchingChannel { .. } => match reply {
                AnnounceReply::Channel { server_id: Some(server_id) } => {
                    if config.reports_mention_roles.len() != 0 {
                        AnnounceStage::FetchingMembers { server_id }
                    } else {
                        AnnounceStage::Sending {
                            announcement: announcement(&config, report, &reporter, &nobody),
                        }
                    }
                },
                AnnounceReply::Channel { server_id: None } => AnnounceStage::Sending {
                    announcement: announcement(&config, report, &reporter, &nobody),
                },
                _ => AnnounceStage::Finished,
            },
            AnnounceStage::FetchingMembers { .. } => match reply {
                AnnounceReply::Members { ids } => AnnounceStage::Sending {
                    announcement: announcement(&config, report, &reporter, &ids),
                },
                _ => AnnounceStage::Sending {
                    announcement: announcement(&config, report, &reporter, &nobody),
                },
            },
            AnnounceStage::Sending { .. } => AnnounceStage::Finished,
            AnnounceStage::Finished => AnnounceStage::Finished,
        };
        Announcing { config, report, reporter, stage: next }
    }
}

/// Whoever filed a report is not notified of it.
pub proof fn law_reporter_is_not_notified(members: Seq<Seq<char>>, reporter_id: Seq<char>)
    ensures
        !notified(members, reporter_id).contains(reporter_id),
        forall|id: Seq<char>|
            id != reporter_id ==> (#[trigger] notified(members, reporter_id).contains(id)
                <==> members.contains(id)),
{
    crate::sponsor::law_revoke(members, reporter_id);
}

/// What a reporter adds is at most a thousand characters long, and anything up to that will do.
pub proof fn law_context_has_a_limit<C>(data: &DataReportContent<C>, result: Result<()>)
    requires
        call_ensures(DataReportContent::<C>::validate, (data,), result),
    ensures
        result is Ok <==> data.additional_context@.len() <= 1000,
        result is Err ==> result->Err_0 is FailedValidation,
{
}

/// A report starts out as its author filed it: under an id of its own, in the author's name, with
/// the content and the words as given, looked at by nobody.
pub proof fn law_report_is_kept_as_filed<S, C>(
    user: User,
    data: DataReportContent<C>,
    filing: Filing<S, C>,
)
    requires
        call_ensures(report_content::<S, C>, (user, data), filing),
    ensures
        filing.user == user,
        filing.report.id@.len() == 26,
        filing.report.author_id@ == user.id@,
        filing.report.content == data.content,
        filing.report.additional_context@ == data.additional_context@,
        filing.report.status is Created,
        filing.report.notes@.len() == 0,
{
}

/// Bots cannot report, and neither can anybody with more words than allowed; all others come to
/// the first stage.
pub proof fn law_bots_cannot_report<S, C>(
    user: User,
    data: DataReportContent<C>,
    filing: Filing<S, C>,
)
    requires
        call_ensures(report_content::<S, C>, (user, data), filing),
    ensures
        filing.stage is Finding <==> !user.bot && data.additional_context@.len() <= 1000,
        data.additional_context@.len() > 1000 ==> filing.stage is Finished
            && filing.stage->outcome is Err && filing.stage->outcome->Err_0 is FailedValidation,
        data.additional_context@.len() <= 1000 && user.bot ==> filing.stage is Finished
            && filing.stage->outcome is Err && filing.stage->outcome->Err_0 is IsBot,
{
}

/// What is reported comes first and the message that came with it behind it, in what is shown and
/// in the files; without the message there is nothing but what is reported.
pub proof fn law_evidence_holds_both<S>(
    reported: (S, Vec<String>),
    context: Option<(S, Vec<String>)>,
    result: Evidence<S>,
    i: int,
)
    requires
        call_ensures(evidence::<S>, (reported, context), result),
    ensures
        result.snapshots@.len() == if context is Some {
            2int
        } else {
            1int
        },
        result.snapshots@[0] == reported.0,
        context is Some ==> result.snapshots@[1] == (context->0).0,
        result.files@.len() == reported.1@.len() + if context is Some {
            (context->0).1@.len() as int
        } else {
            0int
        },
        0 <= i < reported.1@.len() ==> result.files@[i] == reported.1@[i],
        context is Some && 0 <= i < (context->0).1@.len() ==> result.files@[reported.1@.len() + i]
            == (context->0).1@[i],
{
}

/// A report is filed in this order: each file is marked, each snapshot kept for the report, the
/// report kept; then it is announced and published. Nothing else is done.
pub proof fn law_report_is_filed_in_order<S, C>(
    report: &Report<C>,
    secured: Evidence<S>,
    commands: Vec<ReportCommand<S>>,
    i: int,
)
    requires
        call_ensures(file_report::<S, C>, (report, secured), commands),
    ensures
        commands@.len() == secured.files@.len() + secured.snapshots@.len() + 3,
        0 <= i < secured.files@.len() ==> commands@[i] is MarkReported && commands@[i]->file@
            == secured.files@[i]@,
        0 <= i < secured.snapshots@.len() ==> {
            let command = commands@[secured.files@.len() + i];
            &&& command is InsertSnapshot
            &&& command->snapshot.id@.len() == 26
            &&& command->snapshot.report_id@ == report.id@
            &&& command->snapshot.content == secured.snapshots@[i]
        },
        commands@[commands@.len() - 3] is InsertReport,
        commands@[commands@.len() - 2] is Announce,
        commands@[commands@.len() - 1] is PublishEvent,
{
}

/// Telling of a report is all that may fail without the report failing.
pub proof fn law_only_telling_may_fail<S>(command: &ReportCommand<S>, result: bool)
    requires
        call_ensures(ReportCommand::<S>::fails_report, (command,), result),
    ensures
        !result <==> *command is Announce || *command is PublishEvent,
{
}

/// A stage changes neither who reports nor what.
pub proof fn law_report_stays_the_same<S, C>(
    filing: Filing<S, C>,
    reply: ReportReply<S>,
    next: Filing<S, C>,
)
    requires
        call_ensures(Filing::<S, C>::advance, (filing, reply), next),
    ensures
        next.user == filing.user,
        next.report == filing.report,
{
}

/// Nobody reports themselves or what is theirs. What is somebody else's is secured, and before
/// that the message that a report on a user came with, if any, is looked for.
pub proof fn law_nobody_reports_their_own<S, C>(
    filing: Filing<S, C>,
    reply: ReportReply<S>,
    next: Filing<S, C>,
)
    requires
        call_ensures(Filing::<S, C>::advance, (filing, reply), next),
        filing.stage is Finding,
    ensures
        reply is Found && reply->owner_id@ == filing.user.id@ ==> next.stage is Finished
            && next.stage->outcome is Err && next.stage->outcome->Err_0 is CannotReportYourself,
        reply is Found && reply->owner_id@ != filing.user.id@ ==> match filing.report.content {
            ReportedContent::User { message_id: Some(id), .. } => next.stage is FindingContext
                && next.stage->message_id@ == id@,
            _ => next.stage is Securing && !next.stage->with_context,
        },
        reply is Refused ==> next.stage is Finished && next.stage->outcome == Err::<(), Error>(
            reply->error,
        ),
        !(reply is Found) ==> next.stage is Finished && next.stage->outcome is Err,
{
}

/// A message that came with a report is taken along exactly if it was found.
pub proof fn law_lost_message_is_left_out<S, C>(
    filing: Filing<S, C>,
    reply: ReportReply<S>,
    next: Filing<S, C>,
)
    requires
        call_ensures(Filing::<S, C>::advance, (filing, reply), next),
        filing.stage is FindingContext,
    ensures
        next.stage is Securing,
        next.stage->with_context <==> reply is Found,
{
}

/// What is reported is secured before it is filed, and so is the message that came with it, if it
/// was found; where either cannot be secured, the report fails for that reason.
pub proof fn law_evidence_is_secured_first<S, C>(
    filing: Filing<S, C>,
    reply: ReportReply<S>,
    next: Filing<S, C>,
)
    requires
        call_ensures(Filing::<S, C>::advance, (filing, reply), next),
        filing.stage is Securing || filing.stage is SecuringContext,
    ensures
        next.stage is Filing <==> reply is Secured && (filing.stage is SecuringContext
            || !filing.stage->with_context),
        next.stage is SecuringContext <==> reply is Secured && filing.stage is Securing
            && filing.stage->with_context,
        next.stage is SecuringContext ==> next.stage->SecuringContext_snapshot
            == reply->Secured_snapshot && next.stage->SecuringContext_files@
            == reply->Secured_files@,
        !(reply is Secured) ==> next.stage is Finished && next.stage->outcome is Err,
        reply is Refused ==> next.stage->outcome->Err_0 == reply->error,
{
}

/// What is filed is what was secured: every file is marked, every snapshot kept for the report,
/// what is reported before the message that came with it.
pub proof fn law_all_evidence_is_filed<S, C>(
    filing: Filing<S, C>,
    reply: ReportReply<S>,
    next: Filing<S, C>,
    i: int,
)
    requires
        call_ensures(Filing::<S, C>::advance, (filing, reply), next),
        filing.stage is Securing || filing.stage is SecuringContext,
        next.stage is Filing,
    ensures
        ({
            let commands = next.stage->commands@;
            let alone = filing.stage is Securing;
            let first = if alone { Seq::empty() } else { filing.stage->SecuringContext_files@ };
            let files = first + reply->Secured_files@;
            let marked = files.len() as int;
            let reported = if alone {
                reply->Secured_snapshot
            } else {
                filing.stage->SecuringContext_snapshot
            };
            &&& commands.len() == files.len() + if alone { 4int } else { 5int }
            &&& 0 <= i < files.len() ==> commands[i] is MarkReported && commands[i]->file@
                == files[i]@
            &&& commands[marked] is InsertSnapshot
            &&& commands[marked]->snapshot.content == reported
            &&& commands[marked]->snapshot.report_id@ == filing.report.id@
            &&& !alone ==> commands[marked + 1] is InsertSnapshot && commands[marked
                + 1]->snapshot.content == reply->Secured_snapshot && commands[marked
                + 1]->snapshot.report_id@ == filing.report.id@
            &&& commands[commands.len() - 3] is InsertReport
            &&& commands[commands.len() - 2] is Announce
            &&& commands[commands.len() - 1] is PublishEvent
        }),
{
    if filing.stage is Securing {
        assert(Seq::<String>::empty() + reply->Secured_files@ =~= reply->Secured_files@);
    }
}

/// Commands are carried out one after the other. One that fails ends the filing with its error,
/// unless all it does is tell of the report; when the last one is through the report is filed.
pub proof fn law_commands_are_carried_out_in_turn<S, C>(
    filing: Filing<S, C>,
    reply: ReportReply<S>,
    next: Filing<S, C>,
)
    requires
        call_ensures(Filing::<S, C>::advance, (filing, reply), next),
        filing.stage is Filing,
        filing.stage->commands@.len() > 0,
    ensures
        ({
            let first = filing.stage->commands@[0];
            let passed = reply is Done || first is Announce || first is PublishEvent;
            &&& passed && filing.stage->commands@.len() > 1 ==> next.stage is Filing
                && next.stage->commands@ == filing.stage->commands@.skip(1)
            &&& passed && filing.stage->commands@.len() == 1 ==> next.stage is Finished
                && next.stage->outcome is Ok
            &&& !passed ==> next.stage is Finished && next.stage->outcome is Err
            &&& !passed && reply is Refused ==> next.stage->outcome->Err_0 == reply->error
        }),
{
    assert(filing.stage->commands@.skip(1) =~= filing.stage->commands@.drop_first());
}

/// What is finished stays as it is.
pub proof fn law_finished_filing_stays<S, C>(
    filing: Filing<S, C>,
    reply: ReportReply<S>,
    next: Filing<S, C>,
)
    requires
        call_ensures(Filing::<S, C>::advance, (filing, reply), next),
        filing.stage is Finished,
    ensures
        next.stage == filing.stage,
{
}

/// An announcement names the kind of what is reported and its id: that of the message, the server
/// or the user. It names the reporter and the report, and closes with the reporter's words where
/// there are any.
pub proof fn law_announcement_names_the_target<C>(
    config: &SafetyConfig,
    report: &Report<C>,
    reporter: &User,
    members: &Vec<String>,
    result: Announcement,
)
    requires
        call_ensures(announcement::<C>, (config, report, reporter, members), result),
    ensures
        ({
            let (kind, target) = match report.content {
                ReportedContent::Message { id, rest } => ("message"@, id@),
                ReportedContent::Server { id, rest } => ("server"@, id@),
                ReportedContent::User { id, message_id, rest } => ("user"@, id@),
            };
            let ids = "🚩 New "@ + kind + " report\n\nReported by: <@"@ + reporter.id@
                + ">\nTarget "@ + kind + " id: `"@ + target + "`\nReport id: `"@ + report.id@ + "`"@;
            &&& report.additional_context@.len() == 0 ==> result.content@ == ids
            &&& report.additional_context@.len() > 0 ==> result.content@ == ids + (
            "\n\nContext: "@ + report.additional_context@)
        }),
{
}

/// The message that a report on a user came with does not enter the announcement: with another
/// message, or with none, it reads the same.
pub proof fn law_announcement_leaves_the_message_out<C>(
    config: &SafetyConfig,
    report: &Report<C>,
    other: &Report<C>,
    reporter: &User,
    members: &Vec<String>,
    result: Announcement,
    other_result: Announcement,
)
    requires
        call_ensures(announcement::<C>, (config, report, reporter, members), result),
        call_ensures(announcement::<C>, (config, other, reporter, members), other_result),
        report.content is User,
        other.content is User,
        other.content->User_id@ == report.content->User_id@,
        other.id@ == report.id@,
        other.additional_context@ == report.additional_context@,
    ensures
        other_result.content@ == result.content@,
{
}

/// Reports that differ in the user they are on are announced differently.
pub proof fn law_announcement_tells_users_apart<C>(
    config: &SafetyConfig,
    report: &Report<C>,
    other: &Report<C>,
    reporter: &User,
    members: &Vec<String>,
    result: Announcement,
    other_result: Announcement,
)
    requires
        call_ensures(announcement::<C>, (config, report, reporter, members), result),
        call_ensures(announcement::<C>, (config, other, reporter, members), other_result),
        report.content is User,
        other.content is User,
        other.content->User_id@ != report.content->User_id@,
        other.id@ == report.id@,
        other.additional_context@ == report.additional_context@,
    ensures
        other_result.content@ != result.content@,
{
    let head = "🚩 New "@ + "user"@ + " report\n\nReported by: <@"@ + reporter.id@ + ">\nTarget "@
        + "user"@ + " id: `"@;
    let middle = "`\nReport id: `"@ + report.id@ + "`"@;
    let words = if report.additional_context@.len() == 0 {
        Seq::empty()
    } else {
        "\n\nContext: "@ + report.additional_context@
    };
    let a = report.content->User_id@;
    let b = other.content->User_id@;
    assert(result.content@ =~= head + a + (middle + words));
    assert(other_result.content@ =~= head + b + (middle + words));
    if other_result.content@ == result.content@ {
        let whole = result.content@;
        assert(a.len() == b.len());
        assert(a =~= whole.subrange(head.len() as int, (head.len() + a.len()) as int));
        assert(b =~= whole.subrange(head.len() as int, (head.len() + b.len()) as int));
    }
}

/// Of some members all are mentioned but the reporter, in order: one more at the end is mentioned
/// behind the others, unless it is the reporter.
pub proof fn law_members_are_mentioned_in_order<C>(
    config: &SafetyConfig,
    report: &Report<C>,
    reporter: &User,
    members: &Vec<String>,
    one: String,
    more: &Vec<String>,
    result: Announcement,
    more_result: Announcement,
)
    requires
        call_ensures(announcement::<C>, (config, report, reporter, members), result),
        call_ensures(announcement::<C>, (config, report, reporter, more), more_result),
        more@ == members@.push(one),
    ensures
        members@.len() == 0 ==> result.mentions is None,
        one@ == reporter.id@ ==> (more_result.mentions is None <==> result.mentions is None),
        one@ == reporter.id@ && result.mentions is Some ==> texts((more_result.mentions->0)@)
            == texts((result.mentions->0)@),
        one@ != reporter.id@ ==> more_result.mentions is Some && texts((more_result.mentions->0)@)
            == (if result.mentions is Some {
            texts((result.mentions->0)@)
        } else {
            Seq::empty()
        }).push(one@),
{
    reveal(Seq::filter);
    let all = texts(members@);
    let longer = texts(more@);
    assert(longer.drop_last() =~= all);
    assert(longer.last() == one@);
    if result.mentions is None {
        assert(notified(all, reporter.id@) =~= Seq::empty());
    }
    if more_result.mentions is Some {
        assert(texts((more_result.mentions->0)@).len() == (more_result.mentions->0)@.len());
    }
    if result.mentions is Some {
        assert(texts((result.mentions->0)@).len() == (result.mentions->0)@.len());
    }
}

/// The configured roles are mentioned as they are configured, if there are any.
pub proof fn law_configured_roles_are_mentioned<C>(
    config: &SafetyConfig,
    report: &Report<C>,
    reporter: &User,
    members: &Vec<String>,
    result: Announcement,
)
    requires
        call_ensures(announcement::<C>, (config, report, reporter, members), result),
    ensures
        result.role_mentions is None <==> config.reports_mention_roles@.len() == 0,
        result.role_mentions is Some ==> (result.role_mentions->0)@
            == config.reports_mention_roles@,
{
}

/// A report is announced in the configured channel, and nowhere without one.
pub proof fn law_announced_where_configured<'a, C>(
    config: SafetyConfig,
    report: &'a Report<C>,
    reporter: User,
    announcing: Announcing<'a, C>,
)
    requires
        call_ensures(announce_report::<C>, (config, report, reporter), announcing),
    ensures
        announcing.config == config,
        announcing.report == report,
        announcing.reporter == reporter,
        config.reports_channel@.len() == 0 ==> announcing.stage is Finished,
        config.reports_channel@.len() != 0 ==> announcing.stage is FetchingChannel
            && announcing.stage->channel_id@ == config.reports_channel@,
{
}

/// Without the channel nothing is announced. With it the members are asked for exactly if there
/// are roles to notify and the channel is in a server; otherwise the announcement is sent.
pub proof fn law_members_are_asked_for_where_needed<'a, C>(
    announcing: Announcing<'a, C>,
    reply: AnnounceReply,
    next: Announcing<'a, C>,
)
    requires
        call_ensures(Announcing::<'a, C>::advance, (announcing, reply), next),
        announcing.stage is FetchingChannel,
    ensures
        !(reply is Channel) ==> next.stage is Finished,
        reply is Channel && reply->server_id is Some
            && announcing.config.reports_mention_roles@.len() > 0 ==> next.stage is FetchingMembers
            && next.stage->server_id@ == (reply->server_id->0)@,
        reply is Channel && (reply->server_id is None
            || announcing.config.reports_mention_roles@.len() == 0) ==> next.stage is Sending
            && next.stage->announcement.mentions is None,
{
    if next.stage is Sending {
        assert(notified(Seq::empty(), announcing.reporter.id@) =~= Seq::empty()) by {
            reveal(Seq::filter);
        }
        if next.stage->announcement.mentions is Some {
            assert(texts((next.stage->announcement.mentions->0)@).len() == (
            next.stage->announcement.mentions->0)@.len());
        }
    }
}

/// Whatever came of asking for the members, the announcement is sent next; it is the one that the
/// same report has for the members found, or for none.
pub proof fn law_announced_without_members_too<'a, C>(
    announcing: Announcing<'a, C>,
    reply: AnnounceReply,
    next: Announcing<'a, C>,
    members: &Vec<String>,
    expected: Announcement,
)
    requires
        call_ensures(Announcing::<'a, C>::advance, (announcing, reply), next),
        call_ensures(
            announcement::<C>,
            (&announcing.config, announcing.report, &announcing.reporter, members),
            expected,
        ),
        announcing.stage is FetchingMembers || (announcing.stage is FetchingChannel && next.stage
            is Sending),
        announcing.stage is FetchingMembers && reply is Members ==> members@ == reply->ids@,
        !(announcing.stage is FetchingMembers && reply is Members) ==> members@.len() == 0,
    ensures
        next.stage is Sending,
        next.stage->announcement.content@ == expected.content@,
        next.stage->announcement.mentions is None <==> expected.mentions is None,
        expected.mentions is Some ==> texts((next.stage->announcement.mentions->0)@) == texts(
            (expected.mentions->0)@,
        ),
        next.stage->announcement.role_mentions is None <==> expected.role_mentions is None,
        expected.role_mentions is Some ==> (next.stage->announcement.role_mentions->0)@ == (
        expected.role_mentions->0)@,
{
    if members@.len() == 0 {
        assert(texts(members@) =~= Seq::empty());
    }
    if next.stage->announcement.mentions is Some {
        assert(texts((next.stage->announcement.mentions->0)@).len() == (
        next.stage->announcement.mentions->0)@.len());
    }
    if expected.mentions is Some {
        assert(texts((expected.mentions->0)@).len() == (expected.mentions->0)@.len());
    }
}

/// An announcement that was sent, or could not be sent, is not sent again.
pub proof fn law_announced_once<'a, C>(
    announcing: Announcing<'a, C>,
    reply: AnnounceReply,
    next: Announcing<'a, C>,
)
    requires
        call_ensures(Announcing::<'a, C>::advance, (announcing, reply), next),
    ensures
        next.config == announcing.config,
        next.report == announcing.report,
        next.reporter == announcing.reporter,
        announcing.stage is Sending || announcing.stage is Finished ==> next.stage is Finished,
{
}

} // verus!
