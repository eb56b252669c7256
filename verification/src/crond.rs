use vstd::prelude::*;
use vstd::string::StringExecFns;

use crate::erasure::ErasureReport;
use crate::text::{decimal, decimal_of, join, same, texts};

verus! {

/// Seconds between two looks for accounts whose grace period has expired.
///
/// A deletion becomes due a week after it is requested, so looking every minute would be noise.
pub const INTERVAL: u64 = 300;

/// Seconds between two looks for accounts to delete outright.
pub const HOUR: u64 = 3_600;

/// What an operator has to say to erase an account by hand.
pub const CONFIRMATION: &'static str = "--i-understand-this-is-irreversible";

/// What carrying out the deletions that are due takes next.
#[derive(Debug, PartialEq, Eq)]
pub enum SweepAction<A> {
    /// Erase an account; whatever comes of it, the next one follows
    Erase { account: A },
    /// Wait so many seconds, then list the accounts that are due
    Sleep { seconds: u64 },
}

/// The account deletions that are past their grace period.
#[derive(Debug, PartialEq, Eq)]
pub struct Sweep<A> {
    /// Accounts still to be erased, in order
    pub due: Vec<A>,
}

impl<A> Sweep<A> {
    /// The accounts that were listed; none if they could not be.
    pub fn listed(accounts: Option<Vec<A>>) -> (sweep: Sweep<A>)
        ensures
            sweep.due@ == match accounts {
                Some(list) => list@,
                None => Seq::empty(),
            },
    {
        match accounts {
            Some(list) => Sweep { due: list },
            None => Sweep { due: Vec::new() },
        }
    }

    /// What to do next. One bad account does not stall the queue: it is still scheduled, so the
    /// next sweep retries it.
    pub fn task(&mut self) -> (action: SweepAction<A>)
        ensures
            old(self).due@.len() == 0 ==> action == (SweepAction::<A>::Sleep { seconds: INTERVAL })
                && final(self).due@ == old(self).due@,
            old(self).due@.len() != 0 ==> action == (SweepAction::<A>::Erase {
                account: old(self).due@[0],
            }) && final(self).due@ == old(self).due@.drop_first(),
    {
        if self.due.len() == 0 {
            SweepAction::Sleep { seconds: INTERVAL }
        } else {
            let account = self.due.remove(0);
            assert(self.due@ =~= old(self).due@.drop_first());
            SweepAction::Erase { account }
        }
    }
}

/// The accounts that are erased before a sweep rests.
pub open spec fn swept<A>(due: Seq<A>) -> Seq<A>
    decreases due.len(),
{
    if due.len() == 0 {
        Seq::empty()
    } else {
        seq![due[0]] + swept(due.drop_first())
    }
}

/// A sweep comes to every account that is due, in order, whatever came of the others.
pub proof fn law_sweep_misses_nobody<A>(due: Seq<A>)
    ensures
        swept(due) == due,
    decreases due.len(),
{
    if due.len() != 0 {
        law_sweep_misses_nobody(due.drop_first());
    }
    assert(swept(due) =~= due);
}

/// What deleting accounts outright waits for.
#[derive(Debug, Clone, Copy, PartialEq, Eq, Structural)]
pub enum DeletionStage {
    /// The accounts that are due are to be listed
    Listing,
    /// The user of the account at a place is to be fetched
    FetchingUser { at: usize },
    /// That user is to be deleted
    DeletingUser { at: usize },
    /// The account is to be marked as deleted
    Marking { at: usize },
    /// An hour is to pass
    Sleeping,
    /// Something failed, and the task ends with that
    Aborted,
}

/// The stage after what was asked for went well, or did not; `due` accounts were listed.
pub open spec fn deletion_next(stage: DeletionStage, well: bool, due: usize) -> DeletionStage {
    if !well && stage != DeletionStage::Sleeping {
        DeletionStage::Aborted
    } else {
        match stage {
            DeletionStage::Listing => if due == 0 {
                DeletionStage::Sleeping
            } else {
                DeletionStage::FetchingUser { at: 0 }
            },
            DeletionStage::FetchingUser { at } => DeletionStage::DeletingUser { at },
            DeletionStage::DeletingUser { at } => DeletionStage::Marking { at },
            DeletionStage::Marking { at } => if at + 1 < due {
                DeletionStage::FetchingUser { at: (at + 1) as usize }
            } else {
                DeletionStage::Sleeping
            },
            DeletionStage::Sleeping => DeletionStage::Listing,
            DeletionStage::Aborted => DeletionStage::Aborted,
        }
    }
}

impl DeletionStage {
    /// Take up how it went.
    pub fn task(self, well: bool, due: usize) -> (next: DeletionStage)
        ensures
            next == deletion_next(self, well, due),
    {
        if !well && self != DeletionStage::Sleeping {
            return DeletionStage::Aborted;
        }
        match self {
            DeletionStage::Listing => if due == 0 {
                DeletionStage::Sleeping
            } else {
                DeletionStage::FetchingUser { at: 0 }
            },
            DeletionStage::FetchingUser { at } => DeletionStage::DeletingUser { at },
            DeletionStage::DeletingUser { at } => DeletionStage::Marking { at },
            DeletionStage::Marking { at } => if at < due && due - at > 1 {
                DeletionStage::FetchingUser { at: at + 1 }
            } else {
                DeletionStage::Sleeping
            },
            DeletionStage::Sleeping => DeletionStage::Listing,
            DeletionStage::Aborted => DeletionStage::Aborted,
        }
    }
}

/// An account is marked as deleted only after its user was fetched and deleted, and a failure
/// on the way ends the task.
pub proof fn law_account_is_marked_after_its_user(stage: DeletionStage, well: bool, due: usize)
    ensures
        deletion_next(stage, well, due) matches DeletionStage::Marking { at } ==> well && stage == (
        DeletionStage::DeletingUser { at }),
        deletion_next(stage, well, due) matches DeletionStage::DeletingUser { at } ==> well && stage
            == (DeletionStage::FetchingUser { at }),
        !well && stage != DeletionStage::Sleeping ==> deletion_next(stage, well, due)
            == DeletionStage::Aborted,
{
}

/// What a call of the manual failsafe comes to.
#[derive(Debug, PartialEq, Eq)]
pub enum Request {
    /// It is not a call; the lines say how to make one
    Refused { lines: Vec<String> },
    /// An account is to be erased
    Erase { account_id: String },
}

/// How the failsafe is called.
pub open spec fn usage() -> Seq<char> {
    "usage: erase-account <account-id> "@ + CONFIRMATION@
}

/// What an operator is told that has not confirmed.
pub open spec fn refusal(account_id: Seq<char>) -> Seq<Seq<char>> {
    seq![
        "Refusing to erase "@ + account_id + " without "@ + CONFIRMATION@,
        "This permanently removes their messages, their uploads and their account."@,
    ]
}

/// Read a call of the failsafe. Erasure cannot be undone, so it takes the confirmation, word for
/// word, behind the account.
pub fn read_call(args: &Vec<String>) -> (request: Request)
    ensures
        match request {
            Request::Refused { lines } => if args@.len() < 2 {
                texts(lines@) == seq![usage()]
            } else {
                &&& args@.len() < 3 || args@[2]@ != CONFIRMATION@
                &&& texts(lines@) == refusal(args@[1]@)
            },
            Request::Erase { account_id } => args@.len() >= 3 && args@[2]@ == CONFIRMATION@
                && account_id == args@[1],
        },
{
    if args.len() < 2 {
        let lines = vec![join("usage: erase-account <account-id> ", CONFIRMATION)];
        assert(texts(lines@) =~= seq![usage()]);
        return Request::Refused { lines };
    }
    let account_id = args[1].clone();
    if args.len() < 3 || !same(args[2].as_str(), CONFIRMATION) {
        let mut line = join("Refusing to erase ", account_id.as_str());
        line.append(" without ");
        line.append(CONFIRMATION);
        let lines = vec![
            line,
            "This permanently removes their messages, their uploads and their account.".to_owned(),
        ];
        assert(texts(lines@) =~= refusal(args@[1]@));
        return Request::Refused { lines };
    }
    Request::Erase { account_id }
}

/// A line of the report with a count in it.
pub open spec fn counted(label: Seq<char>, count: u64) -> Seq<char> {
    label + decimal_of(count as nat)
}

fn count_line(label: &str, count: u64) -> (line: String)
    ensures
        line@ == counted(label@, count),
{
    join(label, decimal(count).as_str())
}

/// What an operator is told of an erasure.
pub open spec fn report_text(report: ErasureReport) -> Seq<Seq<char>> {
    seq![
        "Erased account "@ + report.user_id@,
        "  policy version           "@ + report.policy_version@,
        counted("  attachments marked       "@, report.attachments_marked),
        counted("  messages deleted         "@, report.messages_deleted),
        counted("  channels deleted         "@, report.channels_deleted),
        counted("  groups departed          "@, report.groups_departed),
        counted("  memberships deleted      "@, report.memberships_deleted),
        counted("  unreads deleted          "@, report.unreads_deleted),
        counted("  invites deleted          "@, report.invites_deleted),
        counted("  bots deleted             "@, report.bots_deleted),
        counted("  relations pulled         "@, report.relations_pulled),
        counted("  sessions deleted         "@, report.sessions_deleted),
        counted("  withheld (reported)      "@, report.attachments_withheld_reported),
        ""@,
        "Attachments are marked for deletion, not yet gone from storage."@,
        "The file janitor in crond removes the objects on its next pass."@,
    ]
}

/// What an operator is told besides, if something was held back.
pub open spec fn warning_text(report: ErasureReport) -> Seq<Seq<char>> {
    if report.attachments_withheld_reported > 0 {
        seq![
            ""@,
            counted("WARNING: "@, report.attachments_withheld_reported)
                + " attachment(s) were withheld because they are flagged for a"@,
            "safety review. They are NOT erased. Resolve the review, then re-run."@,
        ]
    } else {
        Seq::empty()
    }
}

/// The lines that tell an operator of an erasure.
pub fn report_lines(report: &ErasureReport) -> (lines: Vec<String>)
    ensures
        texts(lines@) == report_text(*report) + warning_text(*report),
{
    let mut lines = vec![
        join("Erased account ", report.user_id.as_str()),
        join("  policy version           ", report.policy_version.as_str()),
        count_line("  attachments marked       ", report.attachments_marked),
        count_line("  messages deleted         ", report.messages_deleted),
        count_line("  channels deleted         ", report.channels_deleted),
        count_line("  groups departed          ", report.groups_departed),
        count_line("  memberships deleted      ", report.memberships_deleted),
        count_line("  unreads deleted          ", report.unreads_deleted),
        count_line("  invites deleted          ", report.invites_deleted),
        count_line("  bots deleted             ", report.bots_deleted),
        count_line("  relations pulled         ", report.relations_pulled),
        count_line("  sessions deleted         ", report.sessions_deleted),
        count_line("  withheld (reported)      ", report.attachments_withheld_reported),
        "".to_owned(),
        "Attachments are marked for deletion, not yet gone from storage.".to_owned(),
        "The file janitor in crond removes the objects on its next pass.".to_owned(),
    ];
    assert(texts(lines@) =~= report_text(*report));
    if report.attachments_withheld_reported > 0 {
        let mut line = count_line("WARNING: ", report.attachments_withheld_reported);
        line.append(" attachment(s) were withheld because they are flagged for a");
        lines.push("".to_owned());
        lines.push(line);
        lines.push(
            "safety review. They are NOT erased. Resolve the review, then re-run.".to_owned(),
        );
    }
    assert(texts(lines@) =~= report_text(*report) + warning_text(*report));
    lines
}

/// A sweep takes up the accounts that were listed, in order, one after the other, and rests for
/// five minutes when none is left; where they could not be listed it rests at once.
pub proof fn law_due_accounts_are_taken_in_order<A>(
    accounts: Option<Vec<A>>,
    sweep: &mut Sweep<A>,
    action: SweepAction<A>,
)
    requires
        call_ensures(Sweep::<A>::listed, (accounts,), *old(sweep)),
        call_ensures(Sweep::<A>::task, (sweep,), action),
    ensures
        accounts is None || accounts->0@.len() == 0 ==> action is Sleep && action->seconds == 300
            && final(sweep).due@.len() == 0,
        accounts is Some && accounts->0@.len() > 0 ==> action is Erase && action->account
            == accounts->0@[0] && final(sweep).due@ == accounts->0@.skip(1),
{
    if accounts is Some && accounts->0@.len() > 0 {
        assert(accounts->0@.skip(1) =~= accounts->0@.drop_first());
    }
}

/// Whatever is left over from earlier is taken up in the same way.
pub proof fn law_next_account_is_the_first_due<A>(sweep: &mut Sweep<A>, action: SweepAction<A>)
    requires
        call_ensures(Sweep::<A>::task, (sweep,), action),
    ensures
        action is Sleep <==> old(sweep).due@.len() == 0,
        action is Sleep ==> action->seconds == 300 && final(sweep).due@.len() == 0,
        action is Erase ==> old(sweep).due@ == seq![action->account] + final(sweep).due@,
{
    if old(sweep).due@.len() > 0 {
        assert(old(sweep).due@ =~= seq![old(sweep).due@[0]] + old(sweep).due@.drop_first());
    }
}

/// Accounts are deleted one after the other: of each the user is fetched, then deleted, then the
/// account marked. Behind the last one, and where there is none, an hour passes before they are
/// listed again. Anything that fails ends the task for good.
pub proof fn law_accounts_are_deleted_in_turn(
    stage: DeletionStage,
    well: bool,
    due: usize,
    next: DeletionStage,
)
    requires
        call_ensures(DeletionStage::task, (stage, well, due), next),
    ensures
        stage is Sleeping ==> next is Listing,
        stage is Aborted ==> next is Aborted,
        !(stage is Sleeping) && !well ==> next is Aborted,
        stage is Listing && well ==> next == if due == 0 {
            DeletionStage::Sleeping
        } else {
            DeletionStage::FetchingUser { at: 0 }
        },
        stage is FetchingUser && well ==> next is DeletingUser && next->DeletingUser_at
            == stage->FetchingUser_at,
        stage is DeletingUser && well ==> next is Marking && next->Marking_at
            == stage->DeletingUser_at,
        stage is Marking && well && stage->Marking_at + 1 < due ==> next is FetchingUser
            && next->FetchingUser_at == stage->Marking_at + 1,
        stage is Marking && well && stage->Marking_at + 1 >= due ==> next is Sleeping,
{
}

/// An account is erased by hand exactly if it is named and the confirmation stands behind it, word
/// for word; otherwise nothing is erased and the operator is told.
pub proof fn law_erasing_takes_the_confirmation(args: &Vec<String>, request: Request)
    requires
        call_ensures(read_call, (args,), request),
    ensures
        request is Erase <==> args@.len() >= 3 && args@[2]@
            == "--i-understand-this-is-irreversible"@,
        request is Erase ==> request->account_id@ == args@[1]@,
        args@.len() < 2 ==> request->lines@.len() == 1 && request->lines@[0]@
            == "usage: erase-account <account-id> "@ + "--i-understand-this-is-irreversible"@,
        request is Refused && args@.len() >= 2 ==> request->lines@.len() == 2
            && request->lines@[0]@ == "Refusing to erase "@ + args@[1]@ + " without "@
            + "--i-understand-this-is-irreversible"@ && request->lines@[1]@
            == "This permanently removes their messages, their uploads and their account."@,
{
    if request is Refused {
        let lines = request->lines@;
        assert(texts(lines).len() == lines.len());
        assert(lines.len() > 0 ==> texts(lines)[0] == lines[0]@);
        assert(lines.len() > 1 ==> texts(lines)[1] == lines[1]@);
    }
}

/// Whether a line says how many of something there were.
pub open spec fn says_count(line: Seq<char>, label: Seq<char>, count: u64) -> bool {
    line == label + decimal_of(count as nat)
}

/// An operator is told of every count of the report, each on its line, and warned exactly if
/// something was held back.
pub proof fn law_report_tells_every_count(report: &ErasureReport, lines: Vec<String>)
    requires
        call_ensures(report_lines, (report,), lines),
    ensures
        lines@.len() == if report.attachments_withheld_reported > 0 {
            19int
        } else {
            16int
        },
        lines@[0]@ == "Erased account "@ + report.user_id@,
        lines@[1]@ == "  policy version           "@ + report.policy_version@,
        says_count(lines@[2]@, "  attachments marked       "@, report.attachments_marked),
        says_count(lines@[3]@, "  messages deleted         "@, report.messages_deleted),
        says_count(lines@[4]@, "  channels deleted         "@, report.channels_deleted),
        says_count(lines@[5]@, "  groups departed          "@, report.groups_departed),
        says_count(lines@[6]@, "  memberships deleted      "@, report.memberships_deleted),
        says_count(lines@[7]@, "  unreads deleted          "@, report.unreads_deleted),
        says_count(lines@[8]@, "  invites deleted          "@, report.invites_deleted),
        says_count(lines@[9]@, "  bots deleted             "@, report.bots_deleted),
        says_count(lines@[10]@, "  relations pulled         "@, report.relations_pulled),
        says_count(lines@[11]@, "  sessions deleted         "@, report.sessions_deleted),
        says_count(
            lines@[12]@,
            "  withheld (reported)      "@,
            report.attachments_withheld_reported,
        ),
        lines@[13]@ == ""@,
        lines@[14]@ == "Attachments are marked for deletion, not yet gone from storage."@,
        lines@[15]@ == "The file janitor in crond removes the objects on its next pass."@,
        report.attachments_withheld_reported > 0 ==> {
            &&& lines@[16]@ == ""@
            &&& lines@[17]@ == "WARNING: "@ + decimal_of(
                report.attachments_withheld_reported as nat,
            ) + " attachment(s) were withheld because they are flagged for a"@
            &&& lines@[18]@
                == "safety review. They are NOT erased. Resolve the review, then re-run."@
        },
{
    let all = texts(lines@);
    assert(all.len() == lines@.len());
    assert forall|i: int| 0 <= i < lines@.len() implies (#[trigger] lines@[i])@ == all[i] by {}
}

} // verus!
