use vstd::prelude::*;

use crate::erasure::{
    advanced, command_of, failure_of, first, fits, Command, ErasurePass, ErasureReport, PassView,
    Reply, Stage,
};
use crate::error::{is_database_error, Error, Result};
use crate::text::{begins_with, join};

verus! {

/// Whether an email address is known to be somebody's.
#[derive(Debug, Clone, Copy, PartialEq, Eq, Structural)]
pub enum EmailVerification {
    Verified,
    Pending,
    Moving,
}

/// What is to become of an account.
#[derive(Debug, Clone, Copy, PartialEq, Eq, Structural)]
pub enum DeletionInfo {
    /// Deletion was asked for and awaits confirmation
    WaitingForVerification,
    /// It is to be deleted after a time
    Scheduled,
    /// It is gone
    Deleted,
}

/// What somebody logs in with.
#[derive(Debug, PartialEq, Eq)]
pub struct Account {
    pub id: String,
    pub email: String,
    pub email_normalised: String,
    pub password: String,
    pub verification: EmailVerification,
    /// Token of a password reset that is under way
    pub password_reset: Option<String>,
    /// Attempts that the account is locked for
    pub lockout: Option<u32>,
    pub deletion: Option<DeletionInfo>,
}

/// Whether an account is the tombstone of another: nothing to log in with is left, and of the
/// address only that there was one.
pub open spec fn is_tombstone(account: Account, before: Account) -> bool {
    &&& account.id == before.id
    &&& account.deletion == Some(DeletionInfo::Deleted)
    &&& account.email@ == "deleted-"@ + before.id@
    &&& account.email_normalised@ == account.email@
    &&& account.password@ == Seq::<char>::empty()
    &&& account.verification == EmailVerification::Verified
    &&& account.password_reset is None
    &&& account.lockout is None
}

/// What is left of an account that was erased.
pub fn tombstone(account: &Account) -> (result: Account)
    ensures
        is_tombstone(result, *account),
{
    let email = join("deleted-", account.id.as_str());
    Account {
        id: account.id.clone(),
        email_normalised: email.clone(),
        email,
        password: String::new(),
        verification: EmailVerification::Verified,
        password_reset: None,
        lockout: None,
        deletion: Some(DeletionInfo::Deleted),
    }
}

/// How far the erasure of an account has come, and what it takes next.
#[derive(Debug, PartialEq, Eq)]
pub enum AccountStage {
    /// The command of the pass is to be carried out
    Erasing { pass: ErasurePass },
    /// The tombstone is to be saved
    Scrubbing { report: ErasureReport, account: Account },
    /// The report is to be written down
    Recording { report: ErasureReport },
    /// What was removed, or why it could not be
    Finished { outcome: Result<ErasureReport> },
}

/// What came of what a stage asked for.
#[derive(Debug, PartialEq, Eq)]
pub enum AccountReply {
    /// The database answered
    Answered { reply: Reply },
    /// It refused, for a reason of its own
    Refused { error: Error },
    /// The tombstone was saved, or not
    Saved { well: bool },
    /// The report was written down
    Recorded,
}

/// The erasure of an account and of everything belonging to it, and the record that it
/// happened.
///
/// The account becomes a tombstone only after everything else is gone: if anything fails before,
/// it is still scheduled, and the next attempt repeats the whole, which does no harm.
#[derive(Debug, PartialEq, Eq)]
pub struct AccountErasure {
    pub account: Account,
    pub stage: AccountStage,
}

/// Whether the erasure has ended with an error.
pub open spec fn failed_with(stage: AccountStage, error: Error) -> bool {
    stage matches AccountStage::Finished { outcome } && outcome == Err::<ErasureReport, Error>(
        error,
    )
}

/// Whether the erasure has ended as the refusal of a command demands: under the operation and
/// the collection that the command names, else with the reason given.
pub open spec fn refused_at(stage: AccountStage, pass: PassView, given: Error) -> bool {
    match failure_of(command_of(pass)->0) {
        Some((operation, collection)) => stage matches AccountStage::Finished { outcome }
            && outcome matches Err(error) && is_database_error(error, operation, collection),
        None => failed_with(stage, given),
    }
}

/// Whether a stage is reached by a pass: another command, or the tombstone once there is none.
pub open spec fn carries_on(stage: AccountStage, pass: PassView, account: Account) -> bool {
    if command_of(pass) is Some {
        stage matches AccountStage::Erasing { pass: next } && next@ == pass
    } else {
        stage matches AccountStage::Scrubbing { report, account: left } && report@ == pass.report
            && is_tombstone(left, account)
    }
}

/// Whether one stage follows another on a reply.
pub open spec fn account_follows(
    erasure: AccountErasure,
    reply: AccountReply,
    next: AccountStage,
) -> bool {
    match erasure.stage {
        AccountStage::Erasing { pass } => if command_of(pass@) is None {
            carries_on(next, pass@, erasure.account)
        } else {
            match reply {
                AccountReply::Answered { reply: answer } => if fits(pass@, answer@) {
                    carries_on(next, advanced(pass@, answer@), erasure.account)
                } else {
                    failed_with(next, Error::InternalError)
                },
                AccountReply::Refused { error } => refused_at(next, pass@, error),
                _ => failed_with(next, Error::InternalError),
            }
        },
        // That the tombstone could not be saved is no reason not to write down what happened.
        AccountStage::Scrubbing { report, .. } => next == (AccountStage::Recording { report }),
        AccountStage::Recording { report } => match reply {
            AccountReply::Recorded => next == (AccountStage::Finished {
                outcome: Ok::<ErasureReport, Error>(report),
            }),
            AccountReply::Refused { error } => failed_with(next, error),
            _ => failed_with(next, Error::InternalError),
        },
        AccountStage::Finished { .. } => next == erasure.stage,
    }
}

fn ended(error: Error) -> (stage: AccountStage)
    ensures
        failed_with(stage, error),
{
    AccountStage::Finished { outcome: Err(error) }
}

fn onward(pass: ErasurePass, account: &Account) -> (stage: AccountStage)
    ensures
        carries_on(stage, pass@, *account),
{
    match pass.command() {
        Some(_) => AccountStage::Erasing { pass },
        None => AccountStage::Scrubbing {
            report: pass.into_report(),
            account: tombstone(account),
        },
    }
}

/// Erase an account and everything belonging to it.
pub fn erase_account(account: Account) -> (erasure: AccountErasure)
    ensures
        erasure.account == account,
        erasure.stage matches AccountStage::Erasing { pass } && pass@ == first(account.id@),
{
    let pass = ErasurePass::new(account.id.as_str());
    AccountErasure { account, stage: AccountStage::Erasing { pass } }
}

impl AccountErasure {
    /// Take up what came of what the stage asked for.
    pub fn advance(self, reply: AccountReply) -> (next: AccountErasure)
        ensures
            next.account == self.account,
            account_follows(self, reply, next.stage),
    {
        let AccountErasure { account, stage } = self;
        let next = match stage {
            AccountStage::Erasing { pass } => match pass.command() {
                None => onward(pass, &account),
                Some(command) => match reply {
                    AccountReply::Answered { reply: answer } => {
                        let mut pass = pass;
                        if pass.accepts(&answer) {
                            pass.advance(answer);
                            onward(pass, &account)
                        } else {
                            ended(Error::InternalError)
                        }
                    },
                    AccountReply::Refused { error } => match command.failure() {
                        Some(failure) => ended(failure),
                        None => ended(error),
                    },
                    _ => ended(Error::InternalError),
                },
            },
            AccountStage::Scrubbing { report, .. } => AccountStage::Recording { report },
            AccountStage::Recording { report } => match reply {
                AccountReply::Recorded => AccountStage::Finished { outcome: Ok(report) },
                AccountReply::Refused { error } => ended(error),
                _ => ended(Error::InternalError),
            },
            AccountStage::Finished { outcome } => AccountStage::Finished { outcome },
        };
        AccountErasure { account, stage: next }
    }
}

/// An account becomes a tombstone only once the whole pass is over, and success is reported only
/// once it was written down.
pub proof fn law_account_goes_last(erasure: AccountErasure, reply: AccountReply, next: AccountStage)
    requires
        account_follows(erasure, reply, next),
    ensures
        next is Scrubbing ==> erasure.stage matches AccountStage::Erasing { pass } && (pass@.stage
            == Stage::Finished || pass@.stage == Stage::DeleteUser) || erasure.stage is Scrubbing,
        next matches AccountStage::Finished { outcome } && outcome is Ok ==> (erasure.stage is
            Recording && reply is Recorded) || erasure.stage is Finished,
        erasure.stage is Scrubbing ==> next is Recording,
{
    if let AccountStage::Erasing { pass } = erasure.stage {
        if let AccountReply::Answered { reply: answer } = reply {
            if pass@.stage != Stage::Finished {
                crate::erasure_laws::law_identity_goes_last(pass@, answer@);
            }
        }
    }
}

/// What is left of an account tells whose it was and nothing to log in with: the address is
/// none that anybody has, but made of the id.
pub proof fn law_tombstones_differ(a: Account, b: Account, left_a: Account, left_b: Account)
    requires
        is_tombstone(left_a, a),
        is_tombstone(left_b, b),
    ensures
        begins_with(left_a.email@, "deleted-"@),
        left_a.email@ == left_b.email@ ==> a.id@ == b.id@,
{
    reveal_strlit("deleted-");
    let prefix = "deleted-"@;
    assert(left_a.email@.take(prefix.len() as int) =~= prefix);
    assert(left_a.email@.skip(prefix.len() as int) =~= a.id@);
    assert(left_b.email@.skip(prefix.len() as int) =~= b.id@);
}

/// Of an account that was erased the id is left, and that it is gone. The address is replaced by
/// one made of the id; there is no password, no reset under way and no lock.
pub proof fn law_nothing_to_log_in_with_is_left(account: &Account, result: Account)
    requires
        call_ensures(tombstone, (account,), result),
    ensures
        result.id@ == account.id@,
        result.email@ == "deleted-"@ + account.id@,
        result.email_normalised@ == "deleted-"@ + account.id@,
        result.password@.len() == 0,
        result.verification is Verified,
        result.password_reset is None,
        result.lockout is None,
        result.deletion is Some,
        result.deletion->0 is Deleted,
{
}

/// The erasure of an account begins with a pass over the data of its owner.
pub proof fn law_erasure_begins_with_the_data(account: Account, erasure: AccountErasure)
    requires
        call_ensures(erase_account, (account,), erasure),
    ensures
        erasure.account == account,
        erasure.stage is Erasing,
        erasure.stage->pass@.user_id == account.id@,
{
}

/// A pass whose command was refused, or answered by something else, ends the erasure with an
/// error: the account is not touched and nothing is written down.
pub proof fn law_refused_pass_leaves_the_account(
    erasure: AccountErasure,
    reply: AccountReply,
    next: AccountErasure,
)
    requires
        call_ensures(AccountErasure::advance, (erasure, reply), next),
        erasure.stage is Erasing,
        command_of(erasure.stage->pass@) is Some,
        !(reply is Answered),
    ensures
        next.account == erasure.account,
        next.stage is Finished,
        next.stage->outcome is Err,
        !(reply is Refused) ==> next.stage->outcome->Err_0 is InternalError,
{
}

/// When a pass has no command left, what is saved is the tombstone of the very account, and what
/// is reported is what the pass removed.
pub proof fn law_account_is_scrubbed_after_its_data(
    erasure: AccountErasure,
    reply: AccountReply,
    next: AccountErasure,
    left: Account,
)
    requires
        call_ensures(AccountErasure::advance, (erasure, reply), next),
        call_ensures(tombstone, (&erasure.account,), left),
        erasure.stage is Erasing,
        next.stage is Scrubbing,
    ensures
        next.stage->account.id@ == left.id@,
        next.stage->account.email@ == left.email@,
        next.stage->account.email_normalised@ == left.email_normalised@,
        next.stage->account.password@.len() == 0,
        next.stage->account.verification is Verified,
        next.stage->account.password_reset is None,
        next.stage->account.lockout is None,
        next.stage->account.deletion == Some(DeletionInfo::Deleted),
{
}

/// Whether the tombstone could be saved or not, the report is written down next; once it is, the
/// erasure has succeeded with that report, and where it could not be the erasure fails for that
/// reason. What has ended stays as it is.
pub proof fn law_report_is_written_down(
    erasure: AccountErasure,
    reply: AccountReply,
    next: AccountErasure,
)
    requires
        call_ensures(AccountErasure::advance, (erasure, reply), next),
        !(erasure.stage is Erasing),
    ensures
        erasure.stage is Scrubbing ==> next.stage is Recording && next.stage->Recording_report
            == erasure.stage->Scrubbing_report,
        erasure.stage is Recording && reply is Recorded ==> next.stage is Finished
            && next.stage->outcome == Ok::<ErasureReport, Error>(erasure.stage->Recording_report),
        erasure.stage is Recording && !(reply is Recorded) ==> next.stage is Finished
            && next.stage->outcome is Err,
        erasure.stage is Recording && reply is Refused ==> next.stage->outcome->Err_0
            == reply->error,
        erasure.stage is Finished ==> next.stage == erasure.stage,
{
}

/// A reply that fits is taken up by the pass as the pass takes it up by itself; another command
/// follows, or the tombstone once there is none. One that does not fit ends the erasure.
pub proof fn law_replies_are_taken_up_by_the_pass(
    erasure: AccountErasure,
    answer: Reply,
    next: AccountErasure,
    accepted: bool,
    later: &mut ErasurePass,
)
    requires
        erasure.stage is Erasing,
        command_of(erasure.stage->pass@) is Some,
        call_ensures(
            AccountErasure::advance,
            (erasure, AccountReply::Answered { reply: answer }),
            next,
        ),
        call_ensures(ErasurePass::accepts, (&erasure.stage->pass, &answer), accepted),
        *old(later) == erasure.stage->pass,
        accepted ==> call_ensures(ErasurePass::advance, (later, answer), ()),
    ensures
        next.account == erasure.account,
        !accepted ==> next.stage is Finished && next.stage->outcome is Err
            && next.stage->outcome->Err_0 is InternalError,
        accepted && !(final(later)@.stage is Finished) ==> next.stage is Erasing
            && next.stage->pass@ == final(later)@,
        accepted && final(later)@.stage is Finished ==> next.stage is Scrubbing
            && next.stage->Scrubbing_report@ == final(later)@.report,
{
}

/// A command that was refused ends the erasure with the failure that the command has, and with the
/// reason given where it has none.
pub proof fn law_refused_command_gives_its_failure(
    erasure: AccountErasure,
    error: Error,
    next: AccountErasure,
    command: Command,
    failure: Option<Error>,
)
    requires
        erasure.stage is Erasing,
        call_ensures(AccountErasure::advance, (erasure, AccountReply::Refused { error }), next),
        call_ensures(ErasurePass::command, (&erasure.stage->pass,), Some(command)),
        call_ensures(Command::failure, (&command,), failure),
    ensures
        next.stage is Finished,
        next.stage->outcome is Err,
        failure is None ==> next.stage->outcome->Err_0 == error,
        failure is Some ==> next.stage->outcome->Err_0 is DatabaseError
            && next.stage->outcome->Err_0->operation@ == failure->0->operation@
            && next.stage->outcome->Err_0->collection@ == failure->0->collection@,
{
}

} // verus!
