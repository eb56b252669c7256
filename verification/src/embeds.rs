use vstd::prelude::*;
use vstd::string::StringExecFns;
use vstd::utf8::encode_utf8;

use deadqueue::limited::Queue;

use crate::error::{Error, Result};
use crate::text::{
    characters, distinct, distinct_of, from_characters, join_lines, joined, lines, lines_of, texts,
};
use crate::url::{encode_component, escaped_bytes};

verus! {

/// How many messages may wait to have their links previewed.
pub const QUEUE_LIMIT: usize = 10_000;

/// Code blocks and inline code.
pub const RE_CODE: &'static str = "```(?:.|\n)+?```|`(?:.|\n)+?`";

/// Everything between angle brackets that begins with http.
pub const RE_IGNORED: &'static str = "(<http.+>)";

/// A message whose links are to be previewed.
#[derive(Debug, PartialEq, Eq)]
pub struct EmbedTask {
    /// Channel the message is in
    pub channel: String,
    /// ID of the message
    pub id: String,
    /// Content of the message
    pub content: String,
}

/// What a task says: channel, message and content.
pub open spec fn task_of(task: EmbedTask) -> (Seq<char>, Seq<char>, Seq<char>) {
    (task.channel@, task.id@, task.content@)
}

/// The bounded queue of the `deadqueue` crate.
#[verifier::external_type_specification]
#[verifier::external_body]
#[verifier::reject_recursive_types(T)]
pub struct ExLimitedQueue<T>(deadqueue::limited::Queue<T>);

/// The tasks that wait in a queue, first come first.
pub uninterp spec fn waiting_in(queue: deadqueue::limited::Queue<EmbedTask>) -> Seq<
    (Seq<char>, Seq<char>, Seq<char>),
>;

/// How many tasks a queue was made for.
pub uninterp spec fn limit_of(queue: deadqueue::limited::Queue<EmbedTask>) -> nat;

/// `deadqueue::limited::Queue::new`: an empty queue for `limit` items. It panics for none, and
/// for more than its semaphores count.
#[verifier::external_body]
fn new_queue(limit: usize) -> (queue: Queue<EmbedTask>)
    requires
        0 < limit <= 0x1fff_ffff,
    ensures
        waiting_in(queue) == Seq::<(Seq<char>, Seq<char>, Seq<char>)>::empty(),
        limit_of(queue) == limit,
{
    Queue::new(limit)
}

/// `deadqueue::limited::Queue::try_push`: the item goes to the end unless the queue is full, in
/// which case nothing changes and the item is handed back (and dropped here).
#[verifier::external_body]
fn try_push(queue: &mut Queue<EmbedTask>, task: EmbedTask) -> (pushed: bool)
    ensures
        limit_of(*final(queue)) == limit_of(*old(queue)),
        pushed == (waiting_in(*old(queue)).len() < limit_of(*old(queue))),
        waiting_in(*final(queue)) == if pushed {
            waiting_in(*old(queue)).push(task_of(task))
        } else {
            waiting_in(*old(queue))
        },
{
    queue.try_push(task).is_ok()
}

/// `deadqueue::limited::Queue::try_pop`: the item at the front, none if there is none.
#[verifier::external_body]
fn try_pop(queue: &mut Queue<EmbedTask>) -> (task: Option<EmbedTask>)
    ensures
        limit_of(*final(queue)) == limit_of(*old(queue)),
        match task {
            Some(first) => waiting_in(*old(queue)).len() > 0 && task_of(first) == waiting_in(
                *old(queue),
            )[0] && waiting_in(*final(queue)) == waiting_in(*old(queue)).drop_first(),
            None => waiting_in(*old(queue)).len() == 0 && waiting_in(*final(queue)) == waiting_in(
                *old(queue),
            ),
        },
{
    queue.try_pop()
}

/// The messages that wait to have their links previewed.
pub struct EmbedQueue {
    queue: Queue<EmbedTask>,
}

impl View for EmbedQueue {
    type V = Seq<(Seq<char>, Seq<char>, Seq<char>)>;

    closed spec fn view(&self) -> Seq<(Seq<char>, Seq<char>, Seq<char>)> {
        waiting_in(self.queue)
    }
}

impl EmbedQueue {
    /// Whether no more wait than may.
    pub closed spec fn wf(&self) -> bool {
        limit_of(self.queue) == QUEUE_LIMIT && waiting_in(self.queue).len() <= QUEUE_LIMIT
    }

    /// A queue in which nothing waits.
    pub fn new() -> (queue: EmbedQueue)
        ensures
            queue.wf(),
            queue@ == Seq::<(Seq<char>, Seq<char>, Seq<char>)>::empty(),
    {
        EmbedQueue { queue: new_queue(QUEUE_LIMIT) }
    }

    /// Let a message wait for a worker. Where too many wait already, it goes without previews.
    pub fn queue(&mut self, channel: String, id: String, content: String)
        requires
            old(self).wf(),
        ensures
            final(self).wf(),
            final(self)@ == if old(self)@.len() < QUEUE_LIMIT {
                old(self)@.push((channel@, id@, content@))
            } else {
                old(self)@
            },
    {
        try_push(&mut self.queue, EmbedTask { channel, id, content });
    }

    /// The message for a worker to take up next, none if none waits.
    pub fn next(&mut self) -> (task: Option<EmbedTask>)
        requires
            old(self).wf(),
        ensures
            final(self).wf(),
            match task {
                Some(first) => old(self)@.len() > 0 && task_of(first) == old(self)@[0]
                    && final(self)@ == old(self)@.drop_first(),
                None => old(self)@.len() == 0 && final(self)@ == old(self)@,
            },
    {
        try_pop(&mut self.queue)
    }
}

/// A text without what a regular expression matches in it.
pub uninterp spec fn without_matches(pattern: Seq<char>, text: Seq<char>) -> Seq<char>;

/// `regex::Regex::new` and `regex::Regex::replace_all` with nothing: the text without every
/// match, a function of the pattern and the text. The patterns used here compile; no claim is
/// made of another.
#[verifier::external_body]
fn remove_matches(pattern: &str, text: &str) -> (result: String)
    requires
        pattern@ == RE_CODE@ || pattern@ == RE_IGNORED@,
    ensures
        result@ == without_matches(pattern@, text@),
{
    regex::Regex::new(pattern).unwrap().replace_all(text, "").into_owned()
}

/// The links that `linkify` finds in a text, in order.
pub uninterp spec fn links_in(text: Seq<char>) -> Seq<Seq<char>>;

/// `linkify::LinkFinder::links` for URLs alone: every link in the text, in order, a function of
/// the text.
#[verifier::external_body]
fn find_links(text: &str) -> (links: Vec<String>)
    ensures
        texts(links@) == links_in(text@),
{
    let mut finder = linkify::LinkFinder::new();
    finder.kinds(&[linkify::LinkKind::Url]);
    finder.links(text).map(|link| link.as_str().to_owned()).collect()
}

/// A line, or nothing in its place if it is a quote.
pub open spec fn unquoted_line(line: Seq<char>) -> Seq<char> {
    if line.len() > 0 && line[0] == '>' {
        Seq::empty()
    } else {
        line
    }
}

/// A text with its quoted lines emptied.
pub open spec fn unquoted(text: Seq<char>) -> Seq<char> {
    joined(lines_of(text).map_values(|line: Seq<char>| unquoted_line(line)))
}

/// Empty the quoted lines of a text.
pub fn drop_quotes(text: &str) -> (result: String)
    ensures
        result@ == unquoted(text@),
{
    let all = lines(text);
    let mut kept: Vec<String> = Vec::new();
    for i in 0..all.len()
        invariant
            kept@.len() == i,
            forall|j: int| 0 <= j < i ==> (#[trigger] kept@[j])@ == unquoted_line(all@[j]@),
    {
        let chars = characters(all[i].as_str());
        if chars.len() > 0 && chars[0] == '>' {
            kept.push(String::new());
        } else {
            kept.push(all[i].clone());
        }
    }
    assert(texts(kept@) =~= lines_of(text@).map_values(|line: Seq<char>| unquoted_line(line))) by {
        assert forall|j: int| 0 <= j < kept@.len() implies texts(kept@)[j] == unquoted_line(
            lines_of(text@)[j],
        ) by {
            assert(texts(all@)[j] == all@[j]@);
        }
    }
    join_lines(&kept)
}

/// A link up to its anchor.
pub open spec fn before_anchor(link: Seq<char>) -> Seq<char>
    decreases link.len(),
{
    if link.len() == 0 || link[0] == '#' {
        Seq::empty()
    } else {
        seq![link[0]] + before_anchor(link.drop_first())
    }
}

proof fn lemma_before_anchor(link: Seq<char>, end: int)
    requires
        0 <= end <= link.len(),
        forall|i: int| 0 <= i < end ==> link[i] != '#',
        end < link.len() ==> link[end] == '#',
    ensures
        before_anchor(link) == link.take(end),
    decreases link.len(),
{
    if end == 0 {
        assert(before_anchor(link) =~= link.take(end));
    } else {
        let rest = link.drop_first();
        assert forall|i: int| 0 <= i < end - 1 implies rest[i] != '#' by {
            assert(link[i + 1] != '#');
        }
        lemma_before_anchor(rest, end - 1);
        assert(before_anchor(link) =~= link.take(end));
    }
}

/// Strip the anchor off a link.
pub fn strip_anchor(link: &str) -> (result: String)
    ensures
        result@ == before_anchor(link@),
{
    let chars = characters(link);
    let mut end: usize = 0;
    while end < chars.len() && chars[end] != '#'
        invariant
            end <= chars@.len(),
            forall|i: int| 0 <= i < end ==> chars@[i] != '#',
        decreases chars@.len() - end,
    {
        end = end + 1;
    }
    proof {
        lemma_before_anchor(chars@, end as int);
    }
    assert(chars@.take(end as int) =~= chars@.subrange(0, end as int));
    from_characters(&chars, 0, end)
}

/// The links to preview of those found: without anchors, each once, no more than allowed.
pub open spec fn chosen(found: Seq<Seq<char>>, max_embeds: nat) -> Seq<Seq<char>> {
    let once = distinct_of(found.map_values(|link: Seq<char>| before_anchor(link)));
    if once.len() <= max_embeds {
        once
    } else {
        once.take(max_embeds as int)
    }
}

/// Choose the links to preview.
pub fn choose_links(found: &Vec<String>, max_embeds: usize) -> (links: Vec<String>)
    ensures
        texts(links@) == chosen(texts(found@), max_embeds as nat),
{
    let mut stripped: Vec<String> = Vec::new();
    for i in 0..found.len()
        invariant
            stripped@.len() == i,
            forall|j: int| 0 <= j < i ==> (#[trigger] stripped@[j])@ == before_anchor(found@[j]@),
    {
        stripped.push(strip_anchor(found[i].as_str()));
    }
    assert(texts(stripped@) =~= texts(found@).map_values(
        |link: Seq<char>| before_anchor(link),
    ));
    let mut links = distinct(&stripped);
    let ghost once = texts(links@);
    if links.len() > max_embeds {
        links.truncate(max_embeds);
        assert(texts(links@) =~= once.take(max_embeds as int));
    }
    links
}

/// The part of a message that links are looked for in: without code, without what stands in
/// angle brackets, without quotes.
pub open spec fn searched(content: Seq<char>) -> Seq<char> {
    unquoted(without_matches(RE_IGNORED@, without_matches(RE_CODE@, content)))
}

/// Find the links to preview in a message.
pub fn links_to_preview(content: &str, max_embeds: usize) -> (links: Vec<String>)
    ensures
        texts(links@) == chosen(links_in(searched(content@)), max_embeds as nat),
{
    let content = remove_matches(RE_CODE, content);
    let content = remove_matches(RE_IGNORED, content.as_str());
    let content = drop_quotes(content.as_str());
    let found = find_links(content.as_str());
    choose_links(&found, max_embeds)
}

/// The request for the preview of a link.
pub open spec fn preview_request(host: Seq<char>, link: Seq<char>) -> Seq<char> {
    host + "/embed?url="@ + escaped_bytes(encode_utf8(link))
}

/// The request for the preview of a link.
pub fn embed_request(host: &str, link: &str) -> (url: String)
    ensures
        url@ == preview_request(host@, link@),
{
    let mut url = host.to_owned();
    url.append("/embed?url=");
    url.append(encode_component(link).as_str());
    url
}

/// The requests for the previews of links, in order.
pub open spec fn preview_requests(host: Seq<char>, links: Seq<Seq<char>>) -> Seq<Seq<char>> {
    links.map_values(|link: Seq<char>| preview_request(host, link))
}

/// The requests to make for the previews of some links; nothing is to be done without links.
pub fn requests_for(links: &Vec<String>, host: &str) -> (result: Result<Vec<String>>)
    ensures
        links@.len() == 0 <==> result is Err,
        result matches Err(error) ==> error == Error::LabelMe,
        result matches Ok(requests) ==> texts(requests@) == preview_requests(
            host@,
            texts(links@),
        ),
{
    if links.len() == 0 {
        return Err(Error::LabelMe);
    }
    let mut requests: Vec<String> = Vec::new();
    for i in 0..links.len()
        invariant
            requests@.len() == i,
            forall|j: int|
                0 <= j < i ==> (#[trigger] requests@[j])@ == preview_request(host@, links@[j]@),
    {
        requests.push(embed_request(host, links[i].as_str()));
    }
    assert(texts(requests@) =~= preview_requests(host@, texts(links@)));
    Ok(requests)
}

/// The requests to make for the previews of the links of a message.
pub fn generate(content: &str, host: &str, max_embeds: usize) -> (result: Result<Vec<String>>)
    ensures
        ({
            let links = chosen(links_in(searched(content@)), max_embeds as nat);
            &&& result is Err <==> links.len() == 0
            &&& result matches Err(error) ==> error == Error::LabelMe
            &&& result matches Ok(requests) ==> texts(requests@) == preview_requests(host@, links)
        }),
{
    let links = links_to_preview(content, max_embeds);
    assert(texts(links@).len() == links@.len());
    requests_for(&links, host)
}

/// The previews among the replies, in order.
pub open spec fn present<E>(replies: Seq<Option<E>>) -> Seq<E>
    decreases replies.len(),
{
    if replies.len() == 0 {
        Seq::empty()
    } else {
        match replies.last() {
            Some(embed) => present(replies.drop_last()).push(embed),
            None => present(replies.drop_last()),
        }
    }
}

/// The previews that came back; a message is not touched for none.
pub fn collect_embeds<E>(replies: Vec<Option<E>>) -> (result: Result<Vec<E>>)
    ensures
        result is Err <==> present(replies@).len() == 0,
        result matches Err(error) ==> error == Error::LabelMe,
        result matches Ok(embeds) ==> embeds@ == present(replies@),
{
    let ghost all = replies@;
    let mut embeds: Vec<E> = Vec::new();
    assert(all.take(0) =~= Seq::empty());
    for reply in it: replies
        invariant
            it.seq() == all,
            embeds@ == present(all.take(it.index())),
    {
        assert(all.take(it.index() + 1).drop_last() =~= all.take(it.index()));
        assert(all.take(it.index() + 1).last() == reply);
        match reply {
            Some(embed) => embeds.push(embed),
            None => {},
        }
    }
    assert(all.take(all.len() as int) =~= all);
    if embeds.len() == 0 {
        Err(Error::LabelMe)
    } else {
        Ok(embeds)
    }
}

/// Links are previewed at most once each and never more than allowed; each of them was found,
/// and has no anchor.
pub proof fn law_links_are_limited(found: Seq<Seq<char>>, max_embeds: nat)
    ensures
        chosen(found, max_embeds).len() <= max_embeds,
        chosen(found, max_embeds).no_duplicates(),
        forall|i: int|
            0 <= i < chosen(found, max_embeds).len() ==> !(#[trigger] chosen(
                found,
                max_embeds,
            )[i]).contains('#') && exists|j: int|
                0 <= j < found.len() && before_anchor(#[trigger] found[j]) == chosen(
                    found,
                    max_embeds,
                )[i],
        found.len() > 0 && max_embeds > 0 ==> chosen(found, max_embeds).len() > 0,
{
    let stripped = found.map_values(|link: Seq<char>| before_anchor(link));
    let once = distinct_of(stripped);
    crate::text::lemma_distinct(stripped);
    let links = chosen(found, max_embeds);
    assert forall|i: int| 0 <= i < links.len() implies !(#[trigger] links[i]).contains('#')
        && exists|j: int|
        0 <= j < found.len() && before_anchor(#[trigger] found[j]) == links[i] by {
        assert(links[i] == once[i]);
        assert(once.contains(once[i]));
        assert(stripped.contains(once[i]));
        let j = stripped.index_of(once[i]);
        assert(before_anchor(found[j]) == links[i]);
        lemma_no_anchor(found[j]);
    }
    if found.len() > 0 {
        assert(stripped.contains(stripped[0]));
        assert(once.contains(stripped[0]));
    }
}

proof fn lemma_no_anchor(link: Seq<char>)
    ensures
        !before_anchor(link).contains('#'),
    decreases link.len(),
{
    if link.len() > 0 && link[0] != '#' {
        lemma_no_anchor(link.drop_first());
        let rest = before_anchor(link.drop_first());
        let whole = before_anchor(link);
        if whole.contains('#') {
            let i = whole.index_of('#');
            assert(i > 0);
            assert(rest[i - 1] == '#');
        }
    }
}

proof fn lemma_unquoted_apart(left: Seq<char>, right: Seq<char>)
    ensures
        unquoted(left.push('\n') + right) == unquoted(left).push('\n') + unquoted(right),
{
    let each = |line: Seq<char>| unquoted_line(line);
    let a = lines_of(left);
    let b = lines_of(right);
    crate::text::lemma_lines_apart(left, right);
    crate::text::lemma_lines_count(left);
    crate::text::lemma_lines_count(right);
    assert((a + b).map_values(each) =~= a.map_values(each) + b.map_values(each));
    crate::text::lemma_joined_apart(a.map_values(each), b.map_values(each));
}

proof fn lemma_unquoted_line(line: Seq<char>)
    requires
        !line.contains('\n'),
    ensures
        unquoted(line) == unquoted_line(line),
{
    crate::text::lemma_one_line(line);
    let each = |line: Seq<char>| unquoted_line(line);
    assert(lines_of(line).map_values(each) =~= seq![unquoted_line(line)]);
}

proof fn lemma_unquoted_breaks(text: Seq<char>)
    ensures
        unquoted(text).to_multiset().count('\n') == text.to_multiset().count('\n'),
{
    let each = |line: Seq<char>| unquoted_line(line);
    let kept = lines_of(text).map_values(each);
    crate::text::lemma_lines_count(text);
    assert forall|i: int| 0 <= i < kept.len() implies !(#[trigger] kept[i]).contains('\n') by {
        assert(!lines_of(text)[i].contains('\n'));
    }
    crate::text::lemma_lines_again(kept);
    crate::text::lemma_lines_count(unquoted(text));
}

/// A line by itself is emptied exactly if it begins with the mark of a quote, and is otherwise
/// left as it is, whatever it begins with.
pub proof fn law_only_quotes_are_emptied(line: &str, result: String)
    requires
        call_ensures(drop_quotes, (line,), result),
        !line@.contains('\n'),
    ensures
        line@.len() > 0 && line@[0] == '>' ==> result@.len() == 0,
        line@.len() == 0 || line@[0] != '>' ==> result@ == line@,
{
    lemma_unquoted_line(line@);
}

/// Two texts with a line break between them are treated each by itself.
pub proof fn law_quotes_are_dropped_line_by_line(
    left: &str,
    left_result: String,
    right: &str,
    right_result: String,
    whole: &str,
    result: String,
)
    requires
        call_ensures(drop_quotes, (left,), left_result),
        call_ensures(drop_quotes, (right,), right_result),
        call_ensures(drop_quotes, (whole,), result),
        whole@ == left@.push('\n') + right@,
    ensures
        result@ == left_result@.push('\n') + right_result@,
{
    lemma_unquoted_apart(left@, right@);
}

/// A line that is no quote stands unchanged, and at its place, in what is left of a text: between
/// line breaks, and behind as many of them as before.
pub proof fn law_other_lines_stay_in_place(
    text: &str,
    result: String,
    head: Seq<char>,
    line: Seq<char>,
    tail: Seq<char>,
)
    requires
        call_ensures(drop_quotes, (text,), result),
        text@ == head + line + tail,
        head.len() == 0 || head.last() == '\n',
        tail.len() == 0 || tail[0] == '\n',
        !line.contains('\n'),
        line.len() == 0 || line[0] != '>',
    ensures
        exists|before: Seq<char>, after: Seq<char>|
            result@ == #[trigger] (before + line + after) && before.to_multiset().count('\n')
                == head.to_multiset().count('\n') && (before.len() == 0 || before.last() == '\n')
                && (after.len() == 0 || after[0] == '\n'),
{
    broadcast use vstd::seq_lib::group_to_multiset_ensures;

    lemma_unquoted_line(line);
    let rest = line + tail;
    let after = if tail.len() == 0 {
        Seq::empty()
    } else {
        seq!['\n'] + unquoted(tail.drop_first())
    };
    assert(unquoted(rest) == line + after) by {
        if tail.len() == 0 {
            assert(rest =~= line);
            assert(line + after =~= line);
        } else {
            assert(rest =~= line.push('\n') + tail.drop_first());
            lemma_unquoted_apart(line, tail.drop_first());
            assert(line.push('\n') + unquoted(tail.drop_first()) =~= line + after);
        }
    }
    if head.len() == 0 {
        assert(text@ =~= rest);
        let before = Seq::<char>::empty();
        assert(head =~= before);
        assert(result@ =~= before + line + after);
    } else {
        let most = head.drop_last();
        assert(head =~= most.push('\n'));
        assert(text@ =~= most.push('\n') + rest);
        lemma_unquoted_apart(most, rest);
        lemma_unquoted_breaks(most);
        let before = unquoted(most).push('\n');
        assert(result@ =~= before + line + after);
    }
}

/// Whether a text is a link up to its anchor, all of it if it has none.
pub open spec fn is_stem(stem: Seq<char>, link: Seq<char>) -> bool {
    &&& stem.len() <= link.len()
    &&& stem == link.take(stem.len() as int)
    &&& !stem.contains('#')
    &&& stem.len() < link.len() ==> link[stem.len() as int] == '#'
}

proof fn lemma_stem(link: Seq<char>)
    ensures
        is_stem(before_anchor(link), link),
        forall|stem: Seq<char>| #[trigger] is_stem(stem, link) ==> stem == before_anchor(link),
    decreases link.len(),
{
    if link.len() > 0 && link[0] != '#' {
        let rest = link.drop_first();
        let stem = before_anchor(link);
        lemma_stem(rest);
        lemma_no_anchor(link);
        let less = before_anchor(rest);
        assert(stem =~= link.take(stem.len() as int)) by {
            assert forall|i: int| 0 <= i < stem.len() implies stem[i] == link[i] by {
                if i > 0 {
                    assert(less[i - 1] == rest.take(less.len() as int)[i - 1]);
                }
            }
        }
        if stem.len() < link.len() {
            assert(rest[less.len() as int] == '#');
        }
    }
    let stem = before_anchor(link);
    assert(is_stem(stem, link)) by {
        assert(stem =~= link.take(stem.len() as int));
    }
    assert forall|other: Seq<char>| #[trigger] is_stem(other, link) implies other == stem by {
        if other.len() < stem.len() {
            assert(stem[other.len() as int] == link.take(stem.len() as int)[other.len() as int]);
            assert(stem.contains('#'));
        } else if stem.len() < other.len() {
            assert(other[stem.len() as int] == link.take(other.len() as int)[stem.len() as int]);
            assert(other.contains('#'));
        }
    }
}

/// A link is cut at its first anchor and nowhere else.
pub proof fn law_link_is_cut_at_its_anchor(link: &str, result: String)
    requires
        call_ensures(strip_anchor, (link,), result),
    ensures
        result@.len() <= link@.len(),
        result@ == link@.take(result@.len() as int),
        !result@.contains('#'),
        result@.len() < link@.len() ==> link@[result@.len() as int] == '#',
{
    lemma_stem(link@);
}

/// No more links are chosen than are allowed, and none twice.
pub proof fn law_few_different_links_are_chosen(
    found: &Vec<String>,
    max_embeds: usize,
    links: Vec<String>,
    i: int,
    j: int,
)
    requires
        call_ensures(choose_links, (found, max_embeds), links),
    ensures
        links@.len() <= max_embeds,
        0 <= i < j < links@.len() ==> links@[i]@ != links@[j]@,
{
    let stripped = texts(found@).map_values(|link: Seq<char>| before_anchor(link));
    crate::text::lemma_distinct(stripped);
    assert(texts(links@).len() == links@.len());
    if 0 <= i < j < links@.len() {
        assert(texts(links@)[i] == links@[i]@);
        assert(texts(links@)[j] == links@[j]@);
    }
}

/// A link that is chosen was found: it is one of those found, without its anchor.
pub proof fn law_chosen_link_was_found(
    found: &Vec<String>,
    max_embeds: usize,
    links: Vec<String>,
    i: int,
)
    requires
        call_ensures(choose_links, (found, max_embeds), links),
        0 <= i < links@.len(),
    ensures
        exists|at: int| 0 <= at < found@.len() && is_stem(links@[i]@, (#[trigger] found@[at])@),
{
    let all = texts(found@);
    let stripped = all.map_values(|link: Seq<char>| before_anchor(link));
    let once = distinct_of(stripped);
    crate::text::lemma_distinct(stripped);
    assert(texts(links@).len() == links@.len());
    assert(texts(links@)[i] == links@[i]@);
    assert(once[i] == links@[i]@);
    assert(once.contains(once[i]));
    assert(stripped.contains(once[i]));
    let at = stripped.index_of(once[i]);
    assert(all[at] == found@[at]@);
    lemma_stem(found@[at]@);
    assert(is_stem(links@[i]@, found@[at]@));
}

/// A link that was found is chosen, without its anchor, unless as many others as are allowed were
/// found before it; and of two that are chosen the one found first comes first.
pub proof fn law_first_links_are_chosen(
    found: &Vec<String>,
    max_embeds: usize,
    links: Vec<String>,
    i: int,
    at: int,
)
    requires
        call_ensures(choose_links, (found, max_embeds), links),
        0 <= at < found@.len(),
    ensures
        links@.len() < max_embeds ==> exists|k: int|
            0 <= k < links@.len() && is_stem((#[trigger] links@[k])@, found@[at]@),
        0 <= i < links@.len() && (forall|k: int|
            0 <= k <= i ==> !is_stem((#[trigger] links@[k])@, found@[at]@)) ==> exists|earlier: int|
            0 <= earlier < at && is_stem(links@[i]@, (#[trigger] found@[earlier])@),
{
    let all = texts(found@);
    let stripped = all.map_values(|link: Seq<char>| before_anchor(link));
    let once = distinct_of(stripped);
    crate::text::lemma_distinct(stripped);
    assert(texts(links@).len() == links@.len());
    assert(all[at] == found@[at]@);
    lemma_stem(found@[at]@);
    assert(stripped.contains(stripped[at]));
    assert(once.contains(stripped[at]));
    let late = once.index_of(stripped[at]);
    if late < links@.len() {
        assert(texts(links@)[late] == links@[late]@);
        assert(is_stem(links@[late]@, found@[at]@));
    }
    if 0 <= i < links@.len() && i < late {
        assert(texts(links@)[i] == links@[i]@);
        crate::text::lemma_distinct_order(stripped, i, late, at);
        let earlier = choose|earlier: int|
            0 <= earlier < at && #[trigger] stripped[earlier] == once[i];
        assert(all[earlier] == found@[earlier]@);
        lemma_stem(found@[earlier]@);
        assert(is_stem(links@[i]@, found@[earlier]@));
    }
}

/// Links are looked for in a message without its code, then without what stands in angle brackets,
/// then without its quotes; and the first of what is found there are the links to preview.
pub proof fn law_links_are_looked_for_in_plain_text(
    content: &str,
    max_embeds: usize,
    links: Vec<String>,
    plain: &str,
    text: String,
    found: Vec<String>,
    chosen_links: Vec<String>,
)
    requires
        call_ensures(links_to_preview, (content, max_embeds), links),
        plain@ == without_matches(
            "(<http.+>)"@,
            without_matches("```(?:.|\n)+?```|`(?:.|\n)+?`"@, content@),
        ),
        call_ensures(drop_quotes, (plain,), text),
        texts(found@) == links_in(text@),
        call_ensures(choose_links, (&found, max_embeds), chosen_links),
    ensures
        links@.len() == chosen_links@.len(),
        forall|i: int| 0 <= i < links@.len() ==> (#[trigger] links@[i])@ == chosen_links@[i]@,
{
    assert(texts(links@) == texts(chosen_links@));
    assert(texts(links@).len() == links@.len());
    assert forall|i: int| 0 <= i < links@.len() implies (#[trigger] links@[i])@
        == chosen_links@[i]@ by {
        assert(texts(links@)[i] == links@[i]@);
        assert(texts(chosen_links@)[i] == chosen_links@[i]@);
    }
}

/// A message gives rise to one request for each of its links to preview, in order, at the host's
/// endpoint and with the link as a parameter; without any link there is nothing to be done.
pub proof fn law_each_link_is_requested(
    content: &str,
    host: &str,
    max_embeds: usize,
    result: Result<Vec<String>>,
    links: Vec<String>,
)
    requires
        call_ensures(generate, (content, host, max_embeds), result),
        call_ensures(links_to_preview, (content, max_embeds), links),
    ensures
        links@.len() == 0 ==> result == Err::<Vec<String>, Error>(Error::LabelMe),
        links@.len() != 0 ==> {
            &&& result matches Ok(requests) && requests@.len() == links@.len()
            &&& forall|i: int|
                0 <= i < links@.len() ==> (#[trigger] result->Ok_0@[i])@ == host@ + "/embed?url="@
                    + escaped_bytes(encode_utf8(links@[i]@))
        },
{
    assert(texts(links@).len() == links@.len());
    if links@.len() != 0 {
        let requests = result->Ok_0;
        assert(texts(requests@).len() == requests@.len());
        assert forall|i: int| 0 <= i < links@.len() implies (#[trigger] requests@[i])@ == host@
            + "/embed?url="@ + escaped_bytes(encode_utf8(links@[i]@)) by {
            assert(texts(requests@)[i] == requests@[i]@);
            assert(texts(links@)[i] == links@[i]@);
        }
    }
}

/// What is present in two lists is what is present in the one and then in the other.
pub proof fn lemma_present_apart<E>(left: Seq<Option<E>>, right: Seq<Option<E>>)
    ensures
        present(left + right) == present(left) + present(right),
    decreases right.len(),
{
    if right.len() == 0 {
        assert(left + right =~= left);
        assert(present(left + right) =~= present(left) + present(right));
    } else {
        lemma_present_apart(left, right.drop_last());
        assert((left + right).drop_last() =~= left + right.drop_last());
        assert(present(left + right) =~= present(left) + present(right));
    }
}

/// Every preview that came back is kept, in order, and nothing else; where none came back a
/// message is not touched.
pub proof fn law_previews_that_came_are_kept<E>(
    replies: Vec<Option<E>>,
    result: Result<Vec<E>>,
    place: int,
)
    requires
        call_ensures(collect_embeds::<E>, (replies,), result),
        0 <= place < replies@.len(),
    ensures
        (forall|i: int| 0 <= i < replies@.len() ==> (#[trigger] replies@[i]) is None) ==> result
            == Err::<Vec<E>, Error>(Error::LabelMe),
        replies@[place] matches Some(embed) ==> {
            &&& result is Ok
            &&& exists|before: Seq<E>, after: Seq<E>|
                result->Ok_0@ == #[trigger] (before.push(embed) + after) && before.len()
                    <= place && after.len() <= replies@.len() - place - 1
        },
        result matches Ok(embeds) ==> 0 < embeds@.len() <= replies@.len(),
{
    let all = replies@;
    let left = all.take(place);
    let right = all.skip(place + 1);
    assert(all =~= left.push(all[place]) + right);
    lemma_present_apart(left.push(all[place]), right);
    assert(left.push(all[place]).drop_last() =~= left);
    lemma_present_length(all);
    lemma_present_length(left);
    lemma_present_length(right);
    if all[place] is Some {
        assert(present(all) == present(left).push(all[place]->0) + present(right));
    }
}

proof fn lemma_present_length<E>(replies: Seq<Option<E>>)
    ensures
        present(replies).len() <= replies.len(),
        (forall|i: int| 0 <= i < replies.len() ==> (#[trigger] replies[i]) is None) <==> present(
            replies,
        ).len() == 0,
    decreases replies.len(),
{
    if replies.len() != 0 {
        let rest = replies.drop_last();
        lemma_present_length(rest);
        assert(replies[replies.len() - 1] == replies.last());
        assert forall|i: int| 0 <= i < rest.len() implies (#[trigger] rest[i]) == replies[i] by {}
        if present(replies).len() == 0 {
            assert forall|i: int|
                0 <= i < replies.len() implies (#[trigger] replies[i]) is None by {
                if i < rest.len() {
                    assert(rest[i] is None);
                }
            }
        }
    }
}

/// The previews of replies in two parts are those of the one part and then those of the other.
pub proof fn law_previews_keep_their_order<E>(
    first: Vec<Option<E>>,
    first_result: Vec<E>,
    second: Vec<Option<E>>,
    second_result: Vec<E>,
    replies: Vec<Option<E>>,
    result: Result<Vec<E>>,
)
    requires
        call_ensures(collect_embeds::<E>, (first,), Ok(first_result)),
        call_ensures(collect_embeds::<E>, (second,), Ok(second_result)),
        call_ensures(collect_embeds::<E>, (replies,), result),
        replies@ == first@ + second@,
    ensures
        result matches Ok(embeds) && embeds@ == first_result@ + second_result@,
{
    lemma_present_apart(first@, second@);
}

/// A message waits behind those that came before it, unless ten thousand wait already; the one
/// that came first is taken up first.
pub proof fn law_messages_wait_in_line(
    queue: &mut EmbedQueue,
    channel: String,
    id: String,
    content: String,
    later: &mut EmbedQueue,
    task: Option<EmbedTask>,
)
    requires
        old(queue).wf(),
        call_ensures(EmbedQueue::queue, (queue, channel, id, content), ()),
        old(later)@ == final(queue)@,
        call_ensures(EmbedQueue::next, (later,), task),
    ensures
        old(queue)@.len() < 10_000 ==> final(queue)@ == old(queue)@.push(
            (channel@, id@, content@),
        ),
        old(queue)@.len() >= 10_000 ==> final(queue)@ == old(queue)@,
        task matches Some(first) && (old(queue)@.len() == 0 ==> first.channel@ == channel@
            && first.id@ == id@ && first.content@ == content@) && (old(queue)@.len() > 0 ==> (
        first.channel@, first.id@, first.content@) == old(queue)@[0]),
        final(later)@ == final(queue)@.drop_first(),
{
}

/// A link is asked for at the host's endpoint, with the whole of it as a parameter.
pub proof fn law_link_is_asked_for_at_the_endpoint(host: &str, link: &str, url: String)
    requires
        call_ensures(embed_request, (host, link), url),
    ensures
        url@ == host@ + "/embed?url="@ + escaped_bytes(encode_utf8(link@)),
{
}

/// There is one request for each of some links, in order, and nothing to be done for none.
pub proof fn law_requests_follow_the_links(
    links: &Vec<String>,
    host: &str,
    result: Result<Vec<String>>,
    i: int,
)
    requires
        call_ensures(requests_for, (links, host), result),
    ensures
        links@.len() == 0 ==> result is Err && result->Err_0 is LabelMe,
        links@.len() != 0 ==> result is Ok && result->Ok_0@.len() == links@.len(),
        0 <= i < links@.len() ==> result->Ok_0@[i]@ == host@ + "/embed?url="@ + escaped_bytes(
            encode_utf8(links@[i]@),
        ),
{
    assert(texts(links@).len() == links@.len());
    if links@.len() != 0 {
        let requests = result->Ok_0@;
        assert(texts(requests).len() == requests.len());
        if 0 <= i < links@.len() {
            assert(texts(requests)[i] == requests[i]@);
            assert(texts(links@)[i] == links@[i]@);
        }
    }
}

/// Nothing waits in a new queue, and from one in which nothing waits nothing is taken.
pub proof fn law_new_queue_is_empty(
    queue: EmbedQueue,
    waiting: &mut EmbedQueue,
    task: Option<EmbedTask>,
)
    requires
        call_ensures(EmbedQueue::new, (), queue),
        *old(waiting) == queue,
        call_ensures(EmbedQueue::next, (waiting,), task),
    ensures
        queue@.len() == 0,
        queue.wf(),
        task is None,
        final(waiting)@.len() == 0,
{
}

} // verus!
