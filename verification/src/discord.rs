use vstd::prelude::*;

use crate::clock::{now_utc, Timestamp};
use crate::error::{Error, Result};
use crate::order::{insert_sorted, is_place, is_sorted, Ordered};
use crate::reference::ReferenceDb;
use crate::table::{lemma_by_id, unique_ids, Keyed};
use crate::text::{
    before, characters, contains, copy_of, first_differs, lemma_precedes, lemma_precedes_total,
    lemma_precedes_transitive, lowercase_of, precedes, same, stands_in, texts,
};
use crate::users::AbstractUsers;

verus! {

/// One member of the Discord community being migrated from: a snapshot, not a live read.
#[derive(Debug, PartialEq, Eq)]
pub struct DiscordMember {
    /// Discord user id (snowflake)
    pub id: String,
    /// Discord username
    pub username: String,
    /// Discord global display name, when the account has one
    pub display_name: Option<String>,
    /// Per-guild nickname, when set
    pub nickname: Option<String>,
    /// Every name above, lowercased and joined
    pub search: String,
    /// When this row was last refreshed from Discord
    pub synced_at: Timestamp,
}

/// A link between a Discord account and an account here. A row is a claim, not a fact: it
/// counts for nothing until it carries both stamps of a confirmation.
#[derive(Debug, PartialEq, Eq)]
pub struct DiscordIdentity {
    /// Discord user id (snowflake)
    pub id: String,
    /// User this Discord account belongs to
    pub user: String,
    /// Discord username as it was at the time of the claim
    pub discord_username: String,
    /// Discord display name or nickname at the time of the claim
    pub discord_display_name: Option<String>,
    /// When the member made the claim
    pub claimed_at: Timestamp,
    /// How this row came to exist: "signup" or "admin"
    pub source: String,
    /// User who confirmed it
    pub confirmed_by: Option<String>,
    /// When it was confirmed
    pub confirmed_at: Option<Timestamp>,
}

/// Whether a claim carries both stamps of a confirmation.
pub open spec fn confirmed(identity: DiscordIdentity) -> bool {
    identity.confirmed_by is Some && identity.confirmed_at is Some
}

impl DiscordIdentity {
    /// Whether an admin has confirmed this claim: both stamps, not either.
    pub fn is_confirmed(&self) -> (result: bool)
        ensures
            result == confirmed(*self),
    {
        self.confirmed_by.is_some() && self.confirmed_at.is_some()
    }
}

impl Clone for DiscordMember {
    fn clone(&self) -> (copy: Self)
        ensures
            copy == *self,
    {
        DiscordMember {
            id: self.id.clone(),
            username: self.username.clone(),
            display_name: copy_of(&self.display_name),
            nickname: copy_of(&self.nickname),
            search: self.search.clone(),
            synced_at: self.synced_at,
        }
    }
}

impl Clone for DiscordIdentity {
    fn clone(&self) -> (copy: Self)
        ensures
            copy == *self,
    {
        DiscordIdentity {
            id: self.id.clone(),
            user: self.user.clone(),
            discord_username: self.discord_username.clone(),
            discord_display_name: copy_of(&self.discord_display_name),
            claimed_at: self.claimed_at,
            source: self.source.clone(),
            confirmed_by: copy_of(&self.confirmed_by),
            confirmed_at: self.confirmed_at,
        }
    }
}

impl Keyed for DiscordMember {
    open spec fn id(&self) -> Seq<char> {
        self.id@
    }

    fn key(&self) -> (key: &str) {
        self.id.as_str()
    }
}

impl Keyed for DiscordIdentity {
    open spec fn id(&self) -> Seq<char> {
        self.id@
    }

    fn key(&self) -> (key: &str) {
        self.id.as_str()
    }
}

/// Members go by their last sync, newest first, then by their names, then by their ids.
impl Ordered for DiscordMember {
    open spec fn precedes(&self, other: &Self) -> bool {
        ||| other.synced_at.earlier_than(self.synced_at)
        ||| self.synced_at == other.synced_at && precedes(self.search@, other.search@)
        ||| self.synced_at == other.synced_at && self.search@ == other.search@ && precedes(
            self.id@,
            other.id@,
        )
    }

    proof fn lemma_asymmetric(&self, other: &Self) {
        lemma_precedes_total(self.search@, other.search@);
        lemma_precedes_total(self.id@, other.id@);
    }

    proof fn lemma_negatively_transitive(&self, other: &Self, third: &Self) {
        lemma_behind_transitive(self.search@, other.search@, third.search@);
        lemma_behind_transitive(self.id@, other.id@, third.id@);
        lemma_precedes_total(self.search@, third.search@);
        lemma_precedes_total(self.search@, other.search@);
        lemma_precedes_total(other.search@, third.search@);
    }

    fn comes_before(&self, other: &Self) -> (result: bool) {
        if other.synced_at.is_before(self.synced_at) {
            true
        } else if self.synced_at.is_before(other.synced_at) {
            false
        } else if same(self.search.as_str(), other.search.as_str()) {
            proof {
                lemma_precedes_total(self.search@, other.search@);
            }
            before(self.id.as_str(), other.id.as_str())
        } else {
            before(self.search.as_str(), other.search.as_str())
        }
    }
}

proof fn lemma_behind_transitive(a: Seq<char>, b: Seq<char>, c: Seq<char>)
    ensures
        !precedes(a, b) && !precedes(b, c) ==> !precedes(a, c),
        !precedes(a, b) && !precedes(b, c) && a == c ==> a == b,
{
    lemma_precedes_total(a, b);
    lemma_precedes_total(b, c);
    lemma_precedes_total(a, c);
    if precedes(b, a) && precedes(c, b) {
        lemma_precedes_transitive(c, b, a);
    }
}

/// Claims go by the time that they were made at, newest first.
impl Ordered for DiscordIdentity {
    open spec fn precedes(&self, other: &Self) -> bool {
        other.claimed_at.earlier_than(self.claimed_at)
    }

    proof fn lemma_asymmetric(&self, other: &Self) {
    }

    proof fn lemma_negatively_transitive(&self, other: &Self, third: &Self) {
    }

    fn comes_before(&self, other: &Self) -> (result: bool) {
        other.claimed_at.is_before(self.claimed_at)
    }
}

/// Whether a character means something else than itself in a regular expression.
pub open spec fn is_meta(c: char) -> bool {
    ||| c == '\\' || c == '^' || c == '$' || c == '.' || c == '|' || c == '?' || c == '*'
    ||| c == '+' || c == '(' || c == ')' || c == '[' || c == ']' || c == '{' || c == '}'
}

/// A character as a regular expression that matches it alone.
pub open spec fn escaped_character(c: char) -> Seq<char> {
    if is_meta(c) {
        seq!['\\', c]
    } else {
        seq![c]
    }
}

/// A text as a regular expression that matches it literally.
pub open spec fn escaped(term: Seq<char>) -> Seq<char>
    decreases term.len(),
{
    if term.len() == 0 {
        Seq::empty()
    } else {
        escaped(term.drop_last()) + escaped_character(term.last())
    }
}

/// The text that a regular expression matches literally, none where it is no such expression:
/// where a character with a meaning of its own stands in it without a backslash before it.
pub open spec fn literal(pattern: Seq<char>) -> Option<Seq<char>>
    decreases pattern.len(),
{
    if pattern.len() == 0 {
        Some(Seq::empty())
    } else if pattern.len() >= 2 && pattern[pattern.len() - 2] == '\\' && is_meta(pattern.last()) {
        match literal(pattern.take(pattern.len() - 2)) {
            Some(text) => Some(text.push(pattern.last())),
            None => None,
        }
    } else if is_meta(pattern.last()) {
        None
    } else {
        match literal(pattern.drop_last()) {
            Some(text) => Some(text.push(pattern.last())),
            None => None,
        }
    }
}

/// A search term can only ever match itself: escaped, it is an expression that matches
/// literally, and it matches the term.
pub proof fn law_escaped_term_matches_itself(term: Seq<char>)
    ensures
        literal(escaped(term)) == Some(term),
    decreases term.len(),
{
    if term.len() == 0 {
        assert(literal(escaped(term))->0 =~= term);
    } else {
        let rest = term.drop_last();
        law_escaped_term_matches_itself(rest);
        let pattern = escaped(term);
        if is_meta(term.last()) {
            assert(pattern.take(pattern.len() - 2) =~= escaped(rest));
        } else {
            assert(pattern.drop_last() =~= escaped(rest));
        }
        assert(rest.push(term.last()) =~= term);
    }
}

/// Escape every character of a search term that means something in a regular expression.
pub fn escape_regex(term: &str) -> (result: String)
    ensures
        result@ == escaped(term@),
{
    let mut result = String::new();
    let chars = characters(term);
    for i in 0..chars.len()
        invariant
            result@ == escaped(chars@.take(i as int)),
    {
        let c = chars[i];
        assert(chars@.take(i + 1).drop_last() =~= chars@.take(i as int));
        if c == '\\' || c == '^' || c == '$' || c == '.' || c == '|' || c == '?' || c == '*' || c
            == '+' || c == '(' || c == ')' || c == '[' || c == ']' || c == '{' || c == '}' {
            result.push('\\');
        }
        result.push(c);
        assert(result@ =~= escaped(chars@.take(i + 1)));
    }
    assert(chars@.take(chars@.len() as int) =~= term@);
    result
}

/// The id that a stored record is found by is its own.
pub open spec fn keyed<T: Keyed>(records: Map<Seq<char>, T>) -> bool {
    forall|id: Seq<char>| #[trigger] records.contains_key(id) ==> records[id].id() == id
}

/// Whether a list holds the claims that there are on some Discord accounts, and no others.
pub open spec fn are_claims_on(
    list: Seq<DiscordIdentity>,
    identities: Map<Seq<char>, DiscordIdentity>,
    ids: Seq<Seq<char>>,
) -> bool {
    &&& forall|identity: DiscordIdentity| #[trigger]
        list.contains(identity) ==> identities.contains_pair(identity.id@, identity)
            && ids.contains(identity.id@)
    &&& forall|id: Seq<char>| #[trigger]
        ids.contains(id) && identities.contains_key(id) ==> identities[id].id@ == id
            && list.contains(identities[id])
}

/// Whether a list holds exactly the records that satisfy a condition, each once.
pub open spec fn lists_those<T: Keyed>(
    list: Seq<T>,
    records: Map<Seq<char>, T>,
    wanted: spec_fn(T) -> bool,
) -> bool {
    &&& unique_ids(list)
    &&& forall|i: int|
        #![trigger list[i]]
        0 <= i < list.len() ==> records.contains_pair(list[i].id(), list[i]) && wanted(list[i])
    &&& forall|id: Seq<char>| #[trigger]
        records.contains_key(id) && wanted(records[id]) ==> list.contains(records[id])
}

/// The part of a list that a page shows.
pub open spec fn page_of<T>(all: Seq<T>, skip: int, limit: int) -> Seq<T> {
    let start = if skip <= all.len() { skip } else { all.len() as int };
    let room = if limit <= 0 { 0 } else { limit };
    let end = if start + room <= all.len() { start + room } else { all.len() as int };
    all.subrange(start, end)
}

/// The members whose names hold a needle.
pub open spec fn naming(needle: Seq<char>) -> spec_fn(DiscordMember) -> bool {
    |member: DiscordMember| stands_in(member.search@, needle)
}

/// Whether a page and a total are what a search comes to: all members whose names hold the
/// needle are put in order, and the page is cut out of them.
pub open spec fn is_search_result(
    members: Map<Seq<char>, DiscordMember>,
    needle: Seq<char>,
    skip: int,
    limit: int,
    page: Seq<DiscordMember>,
    total: int,
) -> bool {
    exists|all: Seq<DiscordMember>| #[trigger]
        lists_those(all, members, naming(needle)) && is_sorted(all) && page == page_of(
            all,
            skip,
            limit,
        ) && total == all.len()
}

/// Two lists of the same members in order are the same list.
proof fn lemma_order_is_unique(a: Seq<DiscordMember>, b: Seq<DiscordMember>)
    requires
        is_sorted(a),
        is_sorted(b),
        unique_ids(a),
        unique_ids(b),
        forall|member: DiscordMember| a.contains(member) <==> b.contains(member),
    ensures
        a == b,
    decreases a.len(),
{
    if a.len() == 0 {
        if b.len() != 0 {
            assert(b.contains(b[0]));
        }
        assert(a =~= b);
    } else {
        assert(a.contains(a[0]));
        assert(b.contains(a[0]));
        let k = b.index_of(a[0]);
        assert(b.contains(b[0]));
        let m = a.index_of(b[0]);
        if k != 0 {
            assert(a[m] == b[0] && b[k] == a[0]);
            assert(b[0].id() != b[k].id());
            assert(m != 0);
            assert(!a[m].precedes(&a[0]));
            assert(!b[k].precedes(&b[0]));
            lemma_precedes_total(a[0].search@, b[0].search@);
            lemma_precedes_total(a[0].id@, b[0].id@);
            assert(false);
        }
        let rest_a = a.drop_first();
        let rest_b = b.drop_first();
        assert forall|i: int, j: int|
            #![trigger rest_a[i], rest_a[j]]
            0 <= i < j < rest_a.len() implies !rest_a[j].precedes(&rest_a[i]) && rest_a[i].id()
            != rest_a[j].id() by {
            assert(rest_a[i] == a[i + 1] && rest_a[j] == a[j + 1]);
        }
        assert forall|i: int, j: int|
            #![trigger rest_b[i], rest_b[j]]
            0 <= i < j < rest_b.len() implies !rest_b[j].precedes(&rest_b[i]) && rest_b[i].id()
            != rest_b[j].id() by {
            assert(rest_b[i] == b[i + 1] && rest_b[j] == b[j + 1]);
        }
        assert forall|member: DiscordMember| rest_a.contains(member) <==> rest_b.contains(
            member,
        ) by {
            lemma_rest_contains(a, member);
            lemma_rest_contains(b, member);
        }
        lemma_order_is_unique(rest_a, rest_b);
        assert(a =~= seq![a[0]] + rest_a);
        assert(b =~= seq![b[0]] + rest_b);
    }
}

proof fn lemma_rest_contains(list: Seq<DiscordMember>, member: DiscordMember)
    requires
        list.len() > 0,
        unique_ids(list),
    ensures
        list.drop_first().contains(member) <==> list.contains(member) && member != list[0],
{
    let rest = list.drop_first();
    if rest.contains(member) {
        let i = rest.index_of(member);
        assert(list[i + 1] == member);
        assert(list[0].id() != list[i + 1].id());
    }
    if list.contains(member) && member != list[0] {
        let i = list.index_of(member);
        assert(rest[i - 1] == member);
    }
}

/// A search comes to one page and one total: what is kept and what is asked for settle them.
pub proof fn law_search_is_settled(
    members: Map<Seq<char>, DiscordMember>,
    needle: Seq<char>,
    skip: int,
    limit: int,
    page: Seq<DiscordMember>,
    total: int,
    other_page: Seq<DiscordMember>,
    other_total: int,
)
    requires
        is_search_result(members, needle, skip, limit, page, total),
        is_search_result(members, needle, skip, limit, other_page, other_total),
    ensures
        page == other_page,
        total == other_total,
{
    let all = choose|all: Seq<DiscordMember>| #[trigger]
        lists_those(all, members, naming(needle)) && is_sorted(all) && page == page_of(
            all,
            skip,
            limit,
        ) && total == all.len();
    let other = choose|all: Seq<DiscordMember>| #[trigger]
        lists_those(all, members, naming(needle)) && is_sorted(all) && other_page == page_of(
            all,
            skip,
            limit,
        ) && other_total == all.len();
    lemma_one_order(members, needle, all, other);
}

/// The members that a needle names can be put in order in one way.
pub(crate) proof fn lemma_one_order(
    members: Map<Seq<char>, DiscordMember>,
    needle: Seq<char>,
    all: Seq<DiscordMember>,
    other: Seq<DiscordMember>,
)
    requires
        lists_those(all, members, naming(needle)),
        lists_those(other, members, naming(needle)),
        is_sorted(all),
        is_sorted(other),
    ensures
        all == other,
{
    assert forall|member: DiscordMember| all.contains(member) <==> other.contains(member) by {
        if all.contains(member) {
            let i = all.index_of(member);
            assert(all[i] == member);
            assert(other.contains(members[member.id()]));
        }
        if other.contains(member) {
            let i = other.index_of(member);
            assert(other[i] == member);
            assert(all.contains(members[member.id()]));
        }
    }
    lemma_order_is_unique(all, other);
}

/// The total is the same whatever part of it is asked for; a page is as long as what is asked
/// for and what is there allow; two pages that follow each other are the page of both, and no
/// member is on them twice.
pub proof fn law_search_pages_add_up(
    members: Map<Seq<char>, DiscordMember>,
    needle: Seq<char>,
    skip: int,
    limit: int,
    more: int,
    page: Seq<DiscordMember>,
    total: int,
    next: Seq<DiscordMember>,
    next_total: int,
    both: Seq<DiscordMember>,
    both_total: int,
)
    requires
        skip >= 0,
        limit >= 0,
        more >= 0,
        is_search_result(members, needle, skip, limit, page, total),
        is_search_result(members, needle, skip + limit, more, next, next_total),
        is_search_result(members, needle, skip, limit + more, both, both_total),
    ensures
        total == next_total == both_total,
        page.len() == if skip >= total {
            0
        } else if limit <= total - skip {
            limit
        } else {
            total - skip
        },
        page + next == both,
        unique_ids(both),
{
    let all = choose|all: Seq<DiscordMember>| #[trigger]
        lists_those(all, members, naming(needle)) && is_sorted(all) && page == page_of(
            all,
            skip,
            limit,
        ) && total == all.len();
    let second = choose|all: Seq<DiscordMember>| #[trigger]
        lists_those(all, members, naming(needle)) && is_sorted(all) && next == page_of(
            all,
            skip + limit,
            more,
        ) && next_total == all.len();
    let third = choose|all: Seq<DiscordMember>| #[trigger]
        lists_those(all, members, naming(needle)) && is_sorted(all) && both == page_of(
            all,
            skip,
            limit + more,
        ) && both_total == all.len();
    lemma_one_order(members, needle, all, second);
    lemma_one_order(members, needle, all, third);
    law_pages_follow_each_other(all, skip, limit, more);
    let start = if skip <= all.len() { skip } else { all.len() as int };
    assert forall|i: int, j: int|
        #![trigger both[i], both[j]]
        0 <= i < j < both.len() implies both[i].id() != both[j].id() by {
        assert(both[i] == all[start + i]);
        assert(both[j] == all[start + j]);
    }
}

/// The case of what is searched for makes no difference: two queries with one lowercase form
/// get the same page and the same total.
pub proof fn law_case_makes_no_difference(
    members: Map<Seq<char>, DiscordMember>,
    query: Seq<char>,
    other: Seq<char>,
    skip: int,
    limit: int,
    page: Seq<DiscordMember>,
    total: int,
    other_page: Seq<DiscordMember>,
    other_total: int,
)
    requires
        lowercase_of(query) == lowercase_of(other),
        is_search_result(members, lowercase_of(query), skip, limit, page, total),
        is_search_result(members, lowercase_of(other), skip, limit, other_page, other_total),
    ensures
        page == other_page,
        total == other_total,
{
    law_search_is_settled(
        members,
        lowercase_of(query),
        skip,
        limit,
        page,
        total,
        other_page,
        other_total,
    );
}

/// Pages taken one after the other leave nothing out and repeat nothing.
pub proof fn law_pages_follow_each_other<T>(all: Seq<T>, skip: int, limit: int, more: int)
    requires
        skip >= 0,
        limit >= 0,
        more >= 0,
    ensures
        page_of(all, skip, limit) + page_of(all, skip + limit, more) == page_of(
            all,
            skip,
            limit + more,
        ),
        page_of(all, 0, all.len() as int) == all,
{
    assert(page_of(all, skip, limit) + page_of(all, skip + limit, more) =~= page_of(
        all,
        skip,
        limit + more,
    ));
    assert(page_of(all, 0, all.len() as int) =~= all);
}

/// The members of a snapshot, by their Discord ids.
pub type Members = Map<Seq<char>, DiscordMember>;

/// Claims, by the Discord account that they are on.
pub type Identities = Map<Seq<char>, DiscordIdentity>;

/// Where the snapshot of the Discord community and the claims on its accounts are kept, beside
/// the users that make them.
pub trait AbstractDiscordIdentity: AbstractUsers {
    /// Whether what is kept is in order: every record is found by its own id.
    spec fn valid(&self) -> bool;

    /// Whether no operation fails.
    spec fn reliable(&self) -> bool;

    /// The members of the snapshot.
    spec fn members(&self) -> Members;

    /// The claims, by the Discord account that they are on.
    spec fn identities(&self) -> Identities;

    /// Whether an operation may end with an error.
    spec fn may_answer(error: Error) -> bool;

    /// Search the Discord member snapshot, newest sync first.
    ///
    /// Returns the page and the total number of matches, because the caller needs to tell a
    /// member how many of how many are shown.
    fn search_discord_members(&self, query: &str, skip: u64, limit: i64) -> (result: Result<
        (Vec<DiscordMember>, u64),
    >)
        requires
            self.valid(),
        ensures
            self.reliable() ==> result is Ok,
            result matches Err(error) ==> Self::may_answer(error),
            result matches Ok(found) ==> is_search_result(
                self.members(),
                lowercase_of(query@),
                skip as int,
                limit as int,
                found.0@,
                found.1 as int,
            ),
    ;

    /// Fetch one Discord member from the snapshot.
    fn fetch_discord_member(&self, discord_id: &str) -> (result: Result<Option<DiscordMember>>)
        requires
            self.valid(),
        ensures
            self.reliable() ==> result is Ok,
            result matches Err(error) ==> Self::may_answer(error),
            result matches Ok(found) ==> found == self.members().get(discord_id@),
            result matches Ok(Some(member)) ==> member.id@ == discord_id@,
    ;

    /// Fetch the claim on a given Discord account, if any.
    fn fetch_discord_identity(&self, discord_id: &str) -> (result: Result<Option<DiscordIdentity>>)
        requires
            self.valid(),
        ensures
            self.reliable() ==> result is Ok,
            result matches Err(error) ==> Self::may_answer(error),
            result matches Ok(found) ==> found == self.identities().get(discord_id@),
    ;

    /// Fetch a claim that a given user has made, if any.
    fn fetch_discord_identity_by_user(&self, user_id: &str) -> (result: Result<
        Option<DiscordIdentity>,
    >)
        requires
            self.valid(),
        ensures
            self.reliable() ==> result is Ok,
            result matches Err(error) ==> Self::may_answer(error),
            result matches Ok(Some(found)) ==> self.identities().contains_pair(found.id@, found)
                && found.user@ == user_id@,
            result matches Ok(None) ==> forall|id: Seq<char>| #[trigger]
                self.identities().contains_key(id) ==> self.identities()[id].user@ != user_id@,
    ;

    /// The claims on a specific set of Discord accounts, used to mark a page of search results
    /// as taken.
    fn fetch_discord_identities_by_ids(&self, discord_ids: &Vec<String>) -> (result: Result<
        Vec<DiscordIdentity>,
    >)
        requires
            self.valid(),
        ensures
            self.reliable() ==> result is Ok,
            result matches Err(error) ==> Self::may_answer(error),
            result matches Ok(list) ==> are_claims_on(
                list@,
                self.identities(),
                texts(discord_ids@),
            ),
    ;

    /// Every claim, confirmed or not, newest claim first.
    fn fetch_discord_identities(&self) -> (result: Result<Vec<DiscordIdentity>>)
        requires
            self.valid(),
        ensures
            self.reliable() ==> result is Ok,
            result matches Err(error) ==> Self::may_answer(error),
            result matches Ok(list) ==> is_sorted(list@) && lists_those(
                list@,
                self.identities(),
                |identity: DiscordIdentity| true,
            ),
    ;

    /// Store a claim.
    fn insert_discord_identity(&mut self, identity: &DiscordIdentity) -> (result: Result<()>)
        requires
            old(self).valid(),
        ensures
            final(self).valid(),
            final(self).reliable() == old(self).reliable(),
            old(self).reliable() ==> result is Ok,
            result matches Err(error) ==> Self::may_answer(error),
            final(self).members() == old(self).members(),
            final(self).users() == old(self).users(),
            final(self).users_valid() == old(self).users_valid(),
            final(self).users_reliable() == old(self).users_reliable(),
            result is Ok ==> final(self).identities() == old(self).identities().insert(
                identity.id@,
                *identity,
            ),
            result is Err ==> final(self).identities() == old(self).identities()
                || final(self).identities() == old(self).identities().insert(
                identity.id@,
                *identity,
            ),
    ;

    /// Stamp a claim as confirmed by an admin: both stamps at once, or none.
    ///
    /// Separate from storing one on purpose: confirmation is one explicit call that a permission
    /// gate sits in front of, not a field that a general update could set by accident.
    fn confirm_discord_identity(&mut self, discord_id: &str, admin_id: &str) -> (result: Result<
        (),
    >)
        requires
            old(self).valid(),
        ensures
            final(self).valid(),
            final(self).reliable() == old(self).reliable(),
            old(self).reliable() ==> result is Ok,
            result matches Err(error) ==> Self::may_answer(error),
            final(self).members() == old(self).members(),
            final(self).users() == old(self).users(),
            final(self).users_valid() == old(self).users_valid(),
            final(self).users_reliable() == old(self).users_reliable(),
            result is Ok ==> is_confirmation(
                old(self).identities(),
                final(self).identities(),
                discord_id@,
                admin_id@,
            ),
            result is Err ==> final(self).identities() == old(self).identities()
                || is_confirmation(
                old(self).identities(),
                final(self).identities(),
                discord_id@,
                admin_id@,
            ),
    ;

    /// Remove a claim.
    fn delete_discord_identity(&mut self, discord_id: &str) -> (result: Result<()>)
        requires
            old(self).valid(),
        ensures
            final(self).valid(),
            final(self).reliable() == old(self).reliable(),
            old(self).reliable() ==> result is Ok,
            result matches Err(error) ==> Self::may_answer(error),
            final(self).members() == old(self).members(),
            final(self).users() == old(self).users(),
            final(self).users_valid() == old(self).users_valid(),
            final(self).users_reliable() == old(self).users_reliable(),
            result is Ok ==> final(self).identities() == old(self).identities().remove(discord_id@),
            result is Err ==> final(self).identities() == old(self).identities()
                || final(self).identities() == old(self).identities().remove(discord_id@),
    ;

    /// Remove a claim unless it is confirmed, and say whether it was removed.
    fn delete_unconfirmed_discord_identity(&mut self, discord_id: &str) -> (result: Result<bool>)
        requires
            old(self).valid(),
        ensures
            final(self).valid(),
            final(self).reliable() == old(self).reliable(),
            old(self).reliable() ==> result is Ok,
            result matches Err(error) ==> Self::may_answer(error),
            final(self).members() == old(self).members(),
            final(self).users() == old(self).users(),
            final(self).users_valid() == old(self).users_valid(),
            final(self).users_reliable() == old(self).users_reliable(),
            result matches Ok(removed) ==> {
                let identities = old(self).identities();
                &&& removed == (identities.contains_key(discord_id@) && !confirmed(
                    identities[discord_id@],
                ))
                &&& final(self).identities() == if removed {
                    identities.remove(discord_id@)
                } else {
                    identities
                }
            },
            result is Err ==> final(self).identities() == old(self).identities() || (!confirmed(
                old(self).identities()[discord_id@],
            ) && final(self).identities() == old(self).identities().remove(discord_id@)),
    ;
}

/// Whether claims came of others by one being stamped, with who did it and some time; nothing
/// changes where there is no claim.
pub open spec fn is_confirmation(
    before: Map<Seq<char>, DiscordIdentity>,
    after: Map<Seq<char>, DiscordIdentity>,
    discord_id: Seq<char>,
    admin_id: Seq<char>,
) -> bool {
    if before.contains_key(discord_id) {
        &&& after.contains_key(discord_id)
        &&& after == before.insert(discord_id, after[discord_id])
        &&& is_stamped(before[discord_id], after[discord_id], admin_id)
    } else {
        after == before
    }
}

/// Whether a claim is another one with both stamps put on it.
pub open spec fn is_stamped(
    before: DiscordIdentity,
    after: DiscordIdentity,
    admin_id: Seq<char>,
) -> bool {
    &&& after.confirmed_by matches Some(by) && by@ == admin_id
    &&& after.confirmed_at is Some
    &&& after == (DiscordIdentity {
        confirmed_by: after.confirmed_by,
        confirmed_at: after.confirmed_at,
        ..before
    })
}

/// The stamps that a confirmation writes, always both.
#[derive(Debug, PartialEq, Eq)]
pub struct ConfirmStamp {
    pub confirmed_by: String,
    pub confirmed_at: Timestamp,
}

impl ConfirmStamp {
    /// The stamps of an admin at a time.
    pub fn at(admin_id: &str, now: Timestamp) -> (stamp: ConfirmStamp)
        ensures
            stamp.confirmed_by@ == admin_id@,
            stamp.confirmed_at == now,
    {
        ConfirmStamp { confirmed_by: admin_id.to_owned(), confirmed_at: now }
    }

    /// The stamps of an admin, now.
    pub fn new(admin_id: &str) -> (stamp: ConfirmStamp)
        ensures
            stamp.confirmed_by@ == admin_id@,
            stamp.confirmed_at.normal(),
    {
        ConfirmStamp::at(admin_id, now_utc())
    }

    /// A claim with the stamps put on it.
    pub fn put_on(self, identity: &DiscordIdentity) -> (result: DiscordIdentity)
        ensures
            result == (DiscordIdentity {
                confirmed_by: Some(self.confirmed_by),
                confirmed_at: Some(self.confirmed_at),
                ..*identity
            }),
    {
        let mut result = identity.clone();
        result.confirmed_by = Some(self.confirmed_by);
        result.confirmed_at = Some(self.confirmed_at);
        result
    }
}

fn sorted_matches(db: &ReferenceDb, needle: &str) -> (all: Vec<DiscordMember>)
    requires
        db.discord_members.wf(),
    ensures
        is_sorted(all@),
        lists_those(all@, db.discord_members@, naming(needle@)),
{
    let mut all: Vec<DiscordMember> = Vec::new();
    let ghost rows = db.discord_members.rows();
    let ghost wanted = naming(needle@);
    let count: usize = db.discord_members.len();
    for i in 0..count
        invariant
            count == rows.len(),
            rows == db.discord_members.rows(),
            wanted == naming(needle@),
            unique_ids(rows),
            is_sorted(all@),
            unique_ids(all@),
            forall|j: int|
                #![trigger all@[j]]
                0 <= j < all@.len() ==> rows.take(i as int).contains(all@[j]) && wanted(all@[j]),
            forall|j: int|
                #![trigger rows[j]]
                0 <= j < i && wanted(rows[j]) ==> all@.contains(rows[j]),
    {
        let member = db.discord_members.at(i);
        assert(*member == rows[i as int]);
        let ghost earlier = all@;
        if contains(member.search.as_str(), needle) {
            insert_sorted(&mut all, member.clone());
            proof {
                let place = choose|place: int| #[trigger]
                    is_place(earlier, *member, place) && all@ == earlier.insert(place, *member);
                lemma_inserted(earlier, all@, *member, place, rows, i as int, wanted);
            }
        } else {
            proof {
                lemma_prefix_grows(earlier, rows, i as int, wanted);
            }
        }
    }
    proof {
        lemma_by_id(rows);
        assert(rows.take(rows.len() as int) =~= rows);
        lemma_lists_all(all@, rows, wanted);
    }
    all
}

/// What came of the rows before one came of the rows up to it.
pub proof fn lemma_prefix_grows<T: Keyed>(
    list: Seq<T>,
    rows: Seq<T>,
    i: int,
    wanted: spec_fn(T) -> bool,
)
    requires
        0 <= i < rows.len(),
        forall|j: int|
            #![trigger list[j]]
            0 <= j < list.len() ==> rows.take(i).contains(list[j]) && wanted(list[j]),
    ensures
        forall|j: int|
            #![trigger list[j]]
            0 <= j < list.len() ==> rows.take(i + 1).contains(list[j]) && wanted(list[j]),
{
    assert forall|j: int|
        #![trigger list[j]]
        0 <= j < list.len() implies rows.take(i + 1).contains(list[j]) by {
        let k = rows.take(i).index_of(list[j]);
        assert(rows.take(i + 1)[k] == list[j]);
    }
}

/// A row put into a list of those before it leaves the list in order.
pub proof fn lemma_inserted<T: Keyed>(
    earlier: Seq<T>,
    later: Seq<T>,
    item: T,
    place: int,
    rows: Seq<T>,
    i: int,
    wanted: spec_fn(T) -> bool,
)
    requires
        0 <= i < rows.len(),
        rows[i] == item,
        wanted(item),
        unique_ids(rows),
        unique_ids(earlier),
        0 <= place <= earlier.len(),
        later == earlier.insert(place, item),
        forall|j: int|
            #![trigger earlier[j]]
            0 <= j < earlier.len() ==> rows.take(i).contains(earlier[j]) && wanted(earlier[j]),
        forall|j: int|
            #![trigger rows[j]]
            0 <= j < i && wanted(rows[j]) ==> earlier.contains(rows[j]),
    ensures
        unique_ids(later),
        forall|j: int|
            #![trigger later[j]]
            0 <= j < later.len() ==> rows.take(i + 1).contains(later[j]) && wanted(later[j]),
        forall|j: int|
            #![trigger rows[j]]
            0 <= j < i + 1 && wanted(rows[j]) ==> later.contains(rows[j]),
{
    assert forall|j: int|
        #![trigger earlier[j]]
        0 <= j < earlier.len() implies earlier[j].id() != item.id() by {
        let k = rows.take(i).index_of(earlier[j]);
        assert(rows[k] == earlier[j]);
        assert(rows[k].id() != rows[i].id());
    }
    assert forall|a: int, b: int|
        #![trigger later[a], later[b]]
        0 <= a < b < later.len() implies later[a].id() != later[b].id() by {
        let from_a = if a < place { a } else { a - 1 };
        let from_b = if b < place { b } else { b - 1 };
        if a != place {
            assert(later[a] == earlier[from_a]);
        }
        if b != place {
            assert(later[b] == earlier[from_b]);
        }
    }
    assert forall|j: int|
        #![trigger later[j]]
        0 <= j < later.len() implies rows.take(i + 1).contains(later[j]) && wanted(later[j]) by {
        if j == place {
            assert(rows.take(i + 1)[i] == item);
        } else {
            let from = if j < place { j } else { j - 1 };
            assert(later[j] == earlier[from]);
            let k = rows.take(i).index_of(earlier[from]);
            assert(rows.take(i + 1)[k] == later[j]);
        }
    }
    assert forall|j: int|
        #![trigger rows[j]]
        0 <= j < i + 1 && wanted(rows[j]) implies later.contains(rows[j]) by {
        if j == i {
            assert(later[place] == item);
        } else {
            let k = earlier.index_of(rows[j]);
            let to = if k < place { k } else { k + 1 };
            assert(later[to] == rows[j]);
        }
    }
}

/// A list of all rows that are wanted lists what is found by their ids.
pub proof fn lemma_lists_all<T: Keyed>(list: Seq<T>, rows: Seq<T>, wanted: spec_fn(T) -> bool)
    requires
        unique_ids(rows),
        unique_ids(list),
        forall|j: int|
            #![trigger list[j]]
            0 <= j < list.len() ==> rows.contains(list[j]) && wanted(list[j]),
        forall|j: int|
            #![trigger rows[j]]
            0 <= j < rows.len() && wanted(rows[j]) ==> list.contains(rows[j]),
    ensures
        lists_those(list, crate::table::by_id(rows), wanted),
{
    lemma_by_id(rows);
    assert forall|j: int|
        #![trigger list[j]]
        0 <= j < list.len() implies crate::table::by_id(rows).contains_pair(
        list[j].id(),
        list[j],
    ) by {
        let k = rows.index_of(list[j]);
        assert(rows[k] == list[j]);
    }
    assert forall|id: Seq<char>| #[trigger]
        crate::table::by_id(rows).contains_key(id) && wanted(
            crate::table::by_id(rows)[id],
        ) implies list.contains(crate::table::by_id(rows)[id]) by {
        let k = rows.index_of(crate::table::by_id(rows)[id]);
        assert(wanted(rows[k]));
    }
}

impl AbstractDiscordIdentity for ReferenceDb {
    open spec fn valid(&self) -> bool {
        self.discord_members.wf() && self.discord_identities.wf()
    }

    open spec fn reliable(&self) -> bool {
        true
    }

    open spec fn members(&self) -> Members {
        self.discord_members@
    }

    open spec fn identities(&self) -> Identities {
        self.discord_identities@
    }

    open spec fn may_answer(error: Error) -> bool {
        false
    }

    fn search_discord_members(&self, query: &str, skip: u64, limit: i64) -> (result: Result<
        (Vec<DiscordMember>, u64),
    >) {
        let needle = query.to_lowercase();
        let all = sorted_matches(self, needle.as_str());
        let total: u64 = all.len() as u64;
        let start: u64 = if skip <= total {
            skip
        } else {
            total
        };
        let room: u64 = if limit <= 0 {
            0
        } else {
            limit as u64
        };
        let end: u64 = if room <= total - start {
            start + room
        } else {
            total
        };
        let mut page: Vec<DiscordMember> = Vec::new();
        let first: usize = start as usize;
        let last: usize = end as usize;
        for i in first..last
            invariant
                first <= i <= last <= all@.len(),
                page@ == all@.subrange(first as int, i as int),
        {
            page.push(all[i].clone());
        }
        assert(page@ == page_of(all@, skip as int, limit as int));
        Ok((page, total))
    }

    fn fetch_discord_member(&self, discord_id: &str) -> (result: Result<Option<DiscordMember>>) {
        proof {
            lemma_by_id(self.discord_members.rows());
        }
        match self.discord_members.get(discord_id) {
            Some(member) => Ok(Some(member.clone())),
            None => Ok(None),
        }
    }

    fn fetch_discord_identity(&self, discord_id: &str) -> (result: Result<
        Option<DiscordIdentity>,
    >) {
        match self.discord_identities.get(discord_id) {
            Some(identity) => Ok(Some(identity.clone())),
            None => Ok(None),
        }
    }

    fn fetch_discord_identity_by_user(&self, user_id: &str) -> (result: Result<
        Option<DiscordIdentity>,
    >) {
        proof {
            lemma_by_id(self.discord_identities.rows());
        }
        let count: usize = self.discord_identities.len();
        for i in 0..count
            invariant
                count == self.discord_identities.rows().len(),
                forall|j: int|
                    #![trigger self.discord_identities.rows()[j]]
                    0 <= j < i ==> self.discord_identities.rows()[j].user@ != user_id@,
                forall|j: int|
                    #![trigger self.discord_identities.rows()[j]]
                    0 <= j < self.discord_identities.rows().len()
                        ==> self.discord_identities@.contains_pair(
                        self.discord_identities.rows()[j].id(),
                        self.discord_identities.rows()[j],
                    ),
        {
            let identity = self.discord_identities.at(i);
            if same(identity.user.as_str(), user_id) {
                return Ok(Some(identity.clone()));
            }
        }
        Ok(None)
    }

    fn fetch_discord_identities_by_ids(&self, discord_ids: &Vec<String>) -> (result: Result<
        Vec<DiscordIdentity>,
    >) {
        let mut list: Vec<DiscordIdentity> = Vec::new();
        let ghost stored = self.discord_identities@;
        proof {
            lemma_by_id(self.discord_identities.rows());
        }
        for i in 0..discord_ids.len()
            invariant
                self.discord_identities.wf(),
                stored == self.discord_identities@,
                keyed(stored),
                forall|j: int|
                    #![trigger list@[j]]
                    0 <= j < list@.len() ==> stored.contains_pair(list@[j].id@, list@[j]) && texts(
                        discord_ids@,
                    ).contains(list@[j].id@),
                forall|j: int|
                    #![trigger discord_ids@[j]]
                    0 <= j < i && stored.contains_key(discord_ids@[j]@) ==> list@.contains(
                        stored[discord_ids@[j]@],
                    ),
        {
            let ghost earlier = list@;
            match self.discord_identities.get(discord_ids[i].as_str()) {
                Some(identity) => {
                    assert(texts(discord_ids@)[i as int] == identity.id@);
                    list.push(identity.clone());
                    assert(list@[earlier.len() as int] == stored[discord_ids@[i as int]@]);
                    assert forall|j: int|
                        #![trigger discord_ids@[j]]
                        0 <= j < i && stored.contains_key(
                            discord_ids@[j]@,
                        ) implies list@.contains(stored[discord_ids@[j]@]) by {
                        let k = earlier.index_of(stored[discord_ids@[j]@]);
                        assert(list@[k] == stored[discord_ids@[j]@]);
                    }
                },
                None => {},
            }
        }
        assert forall|id: Seq<char>| #[trigger]
            texts(discord_ids@).contains(id) && stored.contains_key(id) implies stored[id].id@ == id
            && list@.contains(stored[id]) by {
            let j = texts(discord_ids@).index_of(id);
            assert(discord_ids@[j]@ == id);
        }
        Ok(list)
    }

    fn fetch_discord_identities(&self) -> (result: Result<Vec<DiscordIdentity>>) {
        let mut all: Vec<DiscordIdentity> = Vec::new();
        let ghost rows = self.discord_identities.rows();
        let ghost wanted = |identity: DiscordIdentity| true;
        let count: usize = self.discord_identities.len();
        for i in 0..count
            invariant
                count == rows.len(),
                rows == self.discord_identities.rows(),
                wanted == (|identity: DiscordIdentity| true),
                unique_ids(rows),
                is_sorted(all@),
                unique_ids(all@),
                forall|j: int|
                    #![trigger all@[j]]
                    0 <= j < all@.len() ==> rows.take(i as int).contains(all@[j]) && wanted(
                        all@[j],
                    ),
                forall|j: int|
                    #![trigger rows[j]]
                    0 <= j < i && wanted(rows[j]) ==> all@.contains(rows[j]),
        {
            let identity = self.discord_identities.at(i);
            let ghost earlier = all@;
            insert_sorted(&mut all, identity.clone());
            proof {
                let place = choose|place: int| #[trigger]
                    is_place(earlier, *identity, place) && all@ == earlier.insert(
                        place,
                        *identity,
                    );
                lemma_inserted(earlier, all@, *identity, place, rows, i as int, wanted);
            }
        }
        proof {
            assert(rows.take(rows.len() as int) =~= rows);
            lemma_lists_all(all@, rows, wanted);
        }
        Ok(all)
    }

    fn insert_discord_identity(&mut self, identity: &DiscordIdentity) -> (result: Result<()>) {
        self.discord_identities.put(identity.clone());
        Ok(())
    }

    fn confirm_discord_identity(&mut self, discord_id: &str, admin_id: &str) -> (result: Result<
        (),
    >) {
        let found = match self.discord_identities.get(discord_id) {
            Some(identity) => Some(identity.clone()),
            None => None,
        };
        match found {
            Some(identity) => {
                let stamp = ConfirmStamp::new(admin_id);
                self.discord_identities.put(stamp.put_on(&identity));
            },
            None => {},
        }
        Ok(())
    }

    fn delete_discord_identity(&mut self, discord_id: &str) -> (result: Result<()>) {
        self.discord_identities.remove(discord_id);
        Ok(())
    }

    fn delete_unconfirmed_discord_identity(&mut self, discord_id: &str) -> (result: Result<bool>) {
        let pending = match self.discord_identities.get(discord_id) {
            Some(identity) => !identity.is_confirmed(),
            None => false,
        };
        if pending {
            self.discord_identities.remove(discord_id);
        }
        Ok(pending)
    }
}

/// A claim is confirmed exactly if it carries both stamps.
pub proof fn law_confirmed_takes_both_stamps(identity: &DiscordIdentity, result: bool)
    requires
        call_ensures(DiscordIdentity::is_confirmed, (identity,), result),
    ensures
        result <==> identity.confirmed_by is Some && identity.confirmed_at is Some,
{
}

proof fn lemma_escaped_apart(left: Seq<char>, right: Seq<char>)
    ensures
        escaped(left + right) == escaped(left) + escaped(right),
    decreases right.len(),
{
    if right.len() == 0 {
        assert(left + right =~= left);
        assert(escaped(left + right) =~= escaped(left) + escaped(right));
    } else {
        lemma_escaped_apart(left, right.drop_last());
        assert((left + right).drop_last() =~= left + right.drop_last());
        assert(escaped(left + right) =~= escaped(left) + escaped(right));
    }
}

/// A character is escaped exactly if it means something in a regular expression, with a backslash
/// before it; otherwise it stands for itself.
pub proof fn law_special_characters_are_escaped(term: &str, result: String)
    requires
        call_ensures(escape_regex, (term,), result),
        term@.len() == 1,
    ensures
        r"\.+*?()|[]{}^$"@.contains(term@[0]) ==> result@ == seq!['\\', term@[0]],
        !r"\.+*?()|[]{}^$"@.contains(term@[0]) ==> result@ == term@,
{
    reveal_strlit(r"\.+*?()|[]{}^$");
    let special = r"\.+*?()|[]{}^$"@;
    let c = term@[0];
    assert(special.len() == 14);
    assert(special[0] == '\\' && special[1] == '.' && special[2] == '+' && special[3] == '*'
        && special[4] == '?' && special[5] == '(' && special[6] == ')' && special[7] == '|'
        && special[8] == '[' && special[9] == ']' && special[10] == '{' && special[11] == '}'
        && special[12] == '^' && special[13] == '$');
    assert(special.contains(c) <==> is_meta(c)) by {
        if special.contains(c) {
            let i = special.index_of(c);
            assert(special[i] == c);
        }
    }
    assert(term@.drop_last() =~= Seq::<char>::empty());
    assert(escaped(Seq::<char>::empty()) =~= Seq::<char>::empty());
    assert(term@.last() == c);
    assert(escaped(term@) =~= escaped_character(c));
    assert(term@ =~= seq![c]);
}

/// A text is escaped piece by piece.
pub proof fn law_text_is_escaped_piece_by_piece(
    left: &str,
    left_result: String,
    right: &str,
    right_result: String,
    whole: &str,
    result: String,
)
    requires
        call_ensures(escape_regex, (left,), left_result),
        call_ensures(escape_regex, (right,), right_result),
        call_ensures(escape_regex, (whole,), result),
        whole@ == left@ + right@,
    ensures
        result@ == left_result@ + right_result@,
{
    lemma_escaped_apart(left@, right@);
}

/// The stamps name who confirms and when, and a claim that they are put on is otherwise as it was.
pub proof fn law_stamps_change_nothing_else(
    admin_id: &str,
    now: Timestamp,
    stamp: ConfirmStamp,
    identity: &DiscordIdentity,
    result: DiscordIdentity,
)
    requires
        call_ensures(ConfirmStamp::at, (admin_id, now), stamp),
        call_ensures(ConfirmStamp::put_on, (stamp, identity), result),
    ensures
        result.confirmed_by is Some && result.confirmed_by->0@ == admin_id@,
        result.confirmed_at == Some(now),
        result.id@ == identity.id@,
        result.user@ == identity.user@,
        result.discord_username@ == identity.discord_username@,
        result.discord_display_name == identity.discord_display_name,
        result.claimed_at == identity.claimed_at,
        result.source@ == identity.source@,
{
}

/// Of two members the one synced later comes first, of two synced together the one with the lesser
/// name, and of two with the same name the one with the lesser id.
pub proof fn law_members_go_by_sync_name_and_id(
    one: &DiscordMember,
    other: &DiscordMember,
    result: bool,
)
    requires
        call_ensures(<DiscordMember as Ordered>::comes_before, (one, other), result),
    ensures
        ({
            let newer = other.synced_at.seconds < one.synced_at.seconds || (other.synced_at.seconds
                == one.synced_at.seconds && other.synced_at.nanoseconds
                < one.synced_at.nanoseconds);
            let lesser_name = exists|n: int| #[trigger]
                first_differs(one.search@, other.search@, n);
            let lesser_id = exists|n: int| #[trigger] first_differs(one.id@, other.id@, n);
            result <==> newer || (one.synced_at == other.synced_at && (lesser_name || (one.search@
                == other.search@ && lesser_id)))
        }),
{
    lemma_precedes(one.search@, other.search@);
    lemma_precedes(one.id@, other.id@);
}

/// Of two claims the one made later comes first.
pub proof fn law_claims_go_by_time(one: &DiscordIdentity, other: &DiscordIdentity, result: bool)
    requires
        call_ensures(<DiscordIdentity as Ordered>::comes_before, (one, other), result),
    ensures
        result <==> other.claimed_at.seconds < one.claimed_at.seconds || (other.claimed_at.seconds
            == one.claimed_at.seconds && other.claimed_at.nanoseconds
            < one.claimed_at.nanoseconds),
{
}

} // verus!
