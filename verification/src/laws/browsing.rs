//! Laws of the page browser: where links lead, what is asked for, what the history
//! holds and what an answer changes.
use vstd::prelude::*;

use crate::browser::{text_views, BrowserError, BrowserPage};
use crate::hexadecimal::{hex_text, law_hex_text_is_read_back};
use crate::laws::addresses::{is_path, law_addresses_lead_where_they_say, written};
use crate::service::url_fault;
use crate::text::{is_hex_char, lemma_find_char_at, starts_with};
use crate::ui::browser::{
    arrival, due, halted, navigated, node_of, polled, replies_to, resolved, stepped, visited,
    visited_at, Control, FetchOutcome, PartialBlock, Reply, Request, Session,
};
use crate::ui::forms::gathered;
use crate::ui::partials::{
    partial_name, partial_step, passed_over, PartialContext, PartialState, RequestModel,
};

verus! {

proof fn lemma_node(node: Seq<u8>, path: Seq<char>)
    requires
        node.len() == 16,
    ensures
        node_of(written(node, path)) == hex_text(node),
{
    let s = written(node, path);
    let hash = hex_text(node);
    law_hex_text_is_read_back(node);
    assert forall|i: int| 0 <= i < 32 implies s[i] != ':' by {
        assert(s[i] == hash[i]);
        assert(is_hex_char(hash[i]));
    }
    assert(s[32] == ':');
    lemma_find_char_at(s, ':', 32);
    assert(s.take(32) =~= hash);
}

/// A path alone, with or without a colon before it, leads to the node of the page that
/// it stands on; an address with a node leads to that node, wherever it stands.
pub proof fn law_links_lead_to_their_node(
    node: Seq<u8>,
    here: Seq<char>,
    other: Seq<u8>,
    path: Seq<char>,
)
    requires
        node.len() == 16,
        other.len() == 16,
        is_path(path),
    ensures
        resolved(written(node, here), path) == Ok::<Seq<char>, BrowserError>(written(node, path)),
        resolved(written(node, here), seq![':'] + path) == Ok::<Seq<char>, BrowserError>(
            written(node, path),
        ),
        resolved(written(node, here), written(other, path)) == Ok::<Seq<char>, BrowserError>(
            written(other, path),
        ),
{
    let current = written(node, here);
    lemma_node(node, here);
    lemma_path(path);
    law_addresses_lead_where_they_say(node, path);
    law_addresses_lead_where_they_say(other, path);
    assert(hex_text(node).push(':') + path =~= written(node, path));
    let colon = seq![':'] + path;
    assert(colon[0] == ':');
    assert(hex_text(node) + colon =~= written(node, path));
    let away = written(other, path);
    law_hex_text_is_read_back(other);
    assert(away[0] == hex_text(other)[0]);
    assert(is_hex_char(hex_text(other)[0]));
    reveal_strlit("/page/");
    reveal_strlit("/file/");
    assert(away.take(6)[0] == away[0]);
}

proof fn lemma_path(path: Seq<char>)
    requires
        is_path(path),
    ensures
        starts_with(path, "/page/"@) || starts_with(path, "/file/"@),
        path[0] == '/',
{
    reveal_strlit("/page/");
    reveal_strlit("/file/");
    assert("/page/"@ =~= seq!['/', 'p', 'a', 'g', 'e', '/']);
    assert("/file/"@ =~= seq!['/', 'f', 'i', 'l', 'e', '/']);
    assert(path.take(6)[0] == path[0]);
}

/// A link to a page asks for that page, counts as loading and is noted in the history
/// where it is to be; what was shown stays until the answer is there.
#[verifier::rlimit(50)]
pub proof fn law_links_ask_for_their_page(
    before: Session,
    node: Seq<u8>,
    here: Seq<char>,
    path: Seq<char>,
    reload: bool,
    record: bool,
    after: Session,
    asked: Option<Request>,
)
    requires
        node.len() == 16,
        is_path(path),
        path[1] == 'p',
        before.base() == written(node, here),
        before.generation < u64::MAX,
        navigated(before, path, reload, record, after, asked),
    ensures
        asked.is_some(),
        asked.unwrap().url@ == written(node, path),
        asked.unwrap().reload == reload,
        asked.unwrap().generation == after.generation,
        asked.unwrap().fragment.is_none(),
        after.generation > before.generation,
        after.loading,
        !after.stopped,
        after.url@ == written(node, path),
        after.page == before.page,
        after.form == before.form,
        record ==> after.history@[after.position as int]@ == written(node, path),
        !record ==> after.history == before.history && after.position == before.position,
{
    law_links_lead_to_their_node(node, here, node, path);
    law_addresses_lead_where_they_say(node, path);
    lemma_page_path(path);
}

proof fn lemma_page_path(path: Seq<char>)
    requires
        is_path(path),
    ensures
        crate::browser::is_page_path(path) <==> path[1] == 'p',
{
    reveal_strlit("/page/");
    reveal_strlit("/file/");
    assert("/page/"@ =~= seq!['/', 'p', 'a', 'g', 'e', '/']);
    assert(path.take(6)[1] == path[1]);
}

/// A link to a file, and one that leads nowhere, asks for nothing: the page stays as it
/// is, and the status says why.
#[verifier::rlimit(50)]
pub proof fn law_other_links_ask_for_nothing(
    before: Session,
    target: Seq<char>,
    reload: bool,
    record: bool,
    after: Session,
    asked: Option<Request>,
    node: Seq<u8>,
    here: Seq<char>,
)
    requires
        node.len() == 16,
        before.base() == written(node, here),
        (is_path(target) && target[1] == 'f') || resolved(before.base(), target) is Err,
        navigated(before, target, reload, record, after, asked),
    ensures
        asked.is_none(),
        after == (Session { status: after.status, ..before }),
        resolved(before.base(), target) is Err ==> after.status@ == url_fault(
            resolved(before.base(), target)->Err_0,
        ),
{
    if is_path(target) {
        law_links_lead_to_their_node(node, here, node, target);
        law_addresses_lead_where_they_say(node, target);
        lemma_page_path(target);
    }
}

/// Visiting a page cuts off what lay ahead in the history and puts the page at its end;
/// visiting the page that is shown changes nothing of it.
pub proof fn law_visits_extend_the_history(
    behind: Seq<Seq<char>>,
    ahead: Seq<Seq<char>>,
    url: Seq<char>,
)
    requires
        behind.len() > 0,
    ensures
        url != behind.last() ==> visited(behind + ahead, behind.len() - 1, url) == behind.push(url)
            && visited_at(behind + ahead, behind.len() - 1, url) == behind.len(),
        url == behind.last() ==> visited(behind + ahead, behind.len() - 1, url) == behind + ahead
            && visited_at(behind + ahead, behind.len() - 1, url) == behind.len() - 1,
        visited(Seq::empty(), 0, url) == seq![url],
        visited_at(Seq::empty(), 0, url) == 0,
{
    let history = behind + ahead;
    assert(history[behind.len() - 1] == behind.last());
    assert(history.take(behind.len() as int) =~= behind);
}

/// One step forward is the next page of the history and one step back the one before
/// it, and beyond the ends there is none.
pub proof fn law_steps_are_single(session: Session)
    requires
        session.wf(),
    ensures
        session.position + 1 < session.history@.len() ==> session.step(true) == Some(
            session.position + 1,
        ),
        session.position + 1 >= session.history@.len() ==> session.step(true).is_none(),
        session.position > 0 ==> session.step(false) == Some(session.position - 1),
        session.position == 0 ==> session.step(false).is_none(),
{
}

/// A step in the history asks for the page that stands there and keeps the history.
pub proof fn law_steps_keep_the_history(
    before: Session,
    forward: bool,
    after: Session,
    asked: Option<Request>,
)
    requires
        before.wf(),
        stepped(before, forward, after, asked),
        asked.is_some(),
    ensures
        after.history == before.history,
        forward ==> after.position == before.position + 1,
        !forward ==> after.position == before.position - 1,
        !asked.unwrap().reload,
        asked.unwrap().fields@ == Map::<Seq<char>, String>::empty(),
{
    assert(before.history.len() == before.history@.len());
}

/// An answer that is still waited for shows its page from the top, with an empty form,
/// and ends the loading; the history stays as it is.
pub proof fn law_answers_show_their_page(
    before: Session,
    reply: Reply,
    page: BrowserPage,
    now: u64,
    after: Session,
)
    requires
        reply.generation == before.generation,
        reply.fragment.is_none(),
        reply.result == Ok::<BrowserPage, String>(page),
        polled(before, reply, now, after),
    ensures
        after.page == Some(page),
        after.url@ == page.url@,
        after.form@ == Map::<Seq<char>, Control>::empty(),
        after.top == 0,
        after.left == 0,
        after.focus.is_none(),
        !after.loading,
        after.dirty,
        after.history == before.history,
        after.position == before.position,
        after.generation == before.generation,
{
}

/// A failure leaves the page and its form as they are, ends the loading and says what
/// went wrong.
pub proof fn law_failures_keep_the_page(
    before: Session,
    reply: Reply,
    error: String,
    now: u64,
    after: Session,
)
    requires
        reply.generation == before.generation,
        reply.fragment.is_none(),
        reply.result == Err::<BrowserPage, String>(error),
        polled(before, reply, now, after),
    ensures
        after.page == before.page,
        after.form == before.form,
        after.url == before.url,
        after.focus == before.focus,
        !after.loading,
        after.status@ == "Load failed: "@ + error@,
{
}

/// An answer for a part fills that part and no other, is no longer waited for and
/// touches nothing of the page around it; where it failed, what the part showed stays.
pub proof fn law_answers_fill_their_part(
    before: Session,
    reply: Reply,
    key: String,
    other: Seq<char>,
    now: u64,
    after: Session,
)
    requires
        reply.generation == before.generation,
        reply.fragment == Some(key),
        before.fragments@.contains_key(key@),
        polled(before, reply, now, after),
    ensures
        after.page == before.page,
        after.form == before.form,
        after.url == before.url,
        after.loading == before.loading,
        after.fragments@.contains_key(key@),
        !after.fragments@[key@].pending,
        after.fragments@[key@].next == due(now, before.fragments@[key@].interval),
        after.fragments@[key@].interval == before.fragments@[key@].interval,
        reply.result is Ok ==> after.status@ == before.status@,
        reply.result is Err ==> after.status@ == "Partial: "@ + reply.result->Err_0@,
        reply.result is Ok ==> after.fragments@[key@].page == Some(reply.result->Ok_0)
            && after.fragments@[key@].error.is_none(),
        reply.result is Err ==> after.fragments@[key@].page == before.fragments@[key@].page
            && after.fragments@[key@].error == Some(reply.result->Err_0),
        other != key@ ==> (after.fragments@.contains_key(other)
            <==> before.fragments@.contains_key(other)),
        other != key@ && before.fragments@.contains_key(other) ==> after.fragments@[other]
            == before.fragments@[other],
{
}

/// A part is due again after its interval, a second at least.
pub proof fn law_parts_are_due_after_their_interval(now: u64, interval: u64)
    requires
        now + interval * 1000 + 1000 <= u64::MAX,
    ensures
        interval >= 1 ==> due(now, interval) == now + interval * 1000,
        interval == 0 ==> due(now, interval) == now + 1000,
{
}

/// What arrives is announced by its title, or its address where it has none, and by
/// where it came from.
pub proof fn law_arrivals_are_announced(page: BrowserPage, title: String)
    ensures
        page.from_cache && page.title == Some(title) ==> arrival(page) == "Cached"@
            + " \u{2014} "@ + title@,
        !page.from_cache && page.title == Some(title) ==> arrival(page) == "Received"@
            + " \u{2014} "@ + title@,
        !page.from_cache && page.title.is_none() ==> arrival(page) == "Received"@
            + " \u{2014} "@ + page.url@,
{
}

/// Stopping ends the loading and keeps what is shown.
pub proof fn law_stopping_keeps_the_page(before: Session, after: Session)
    requires
        before.generation < u64::MAX,
        halted(before, after),
    ensures
        !after.loading,
        after.stopped,
        after.generation > before.generation,
        after.page == before.page,
        after.form == before.form,
        after.history == before.history,
        after.url == before.url,
        after.fragments == before.fragments,
{
}

/// A part that was never asked for is asked for: its target at the node of the page,
/// anew, with what its fields send, and it is waited for.
#[verifier::rlimit(50)]
pub proof fn law_new_parts_are_asked_for(
    context: PartialContext,
    state: PartialState,
    key: Seq<char>,
    block: PartialBlock,
    node: Seq<u8>,
    here: Seq<char>,
)
    requires
        node.len() == 16,
        context.url == written(node, here),
        is_path(block.target@),
        context.forced.is_none(),
        !state.fragments.contains_key(key),
    ensures
        ({
            let after = partial_step(context, state, key, block);
            let request = RequestModel {
                url: written(node, block.target@),
                reload: true,
                fields: gathered(
                    text_views(block.fields@),
                    context.controls,
                    context.form,
                ),
                generation: context.generation,
                fragment: Some(key),
            };
            &&& after.requests == state.requests.push(request)
            &&& after.fragments.contains_key(key)
            &&& after.fragments[key].pending
            &&& after.fragments[key].interval == block.interval_seconds
            &&& after.fragments.remove(key) =~= state.fragments.remove(key)
        }),
{
    law_links_lead_to_their_node(node, here, node, block.target@);
}

/// A part with an interval is asked for again once it is due and not before; one that
/// is waited for is not asked for, and one that is called by its name is asked for at
/// once, while the others are left alone.
pub proof fn law_parts_are_asked_for_in_time(
    context: PartialContext,
    state: PartialState,
    key: Seq<char>,
    block: PartialBlock,
)
    requires
        state.fragments.contains_key(key),
    ensures
        ({
            let name = partial_name(text_views(block.fields@));
            let passed = passed_over(context, state.fragments, key, block);
            &&& state.fragments[key].pending ==> passed
            &&& context.forced.is_none() && block.interval_seconds == 0 ==> passed
            &&& context.forced.is_none() && state.fragments[key].next > context.now ==> passed
            &&& context.forced.is_none() && block.interval_seconds > 0
                && state.fragments[key].next <= context.now && !state.fragments[key].pending
                ==> !passed
            &&& context.forced == Some(name) && !state.fragments[key].pending ==> !passed
            &&& context.forced == Some(Seq::<char>::empty()) && !state.fragments[key].pending
                ==> !passed
            &&& context.forced.is_some() && context.forced.unwrap().len() > 0
                && context.forced.unwrap() != name ==> passed
            &&& passed ==> partial_step(context, state, key, block) == state
        }),
{
}

/// A part bears the name behind the first mark for one among its fields.
pub proof fn law_parts_bear_their_name(name: Seq<char>, rest: Seq<Seq<char>>, other: Seq<char>)
    requires
        other.len() == 0 || other[0] != 'p',
    ensures
        partial_name(seq![seq!['p', 'i', 'd', '='] + name] + rest) == name,
        partial_name(seq![other] + rest) == partial_name(rest),
        partial_name(Seq::empty()) == Seq::<char>::empty(),
{
    reveal_strlit("pid=");
    let marked = seq!['p', 'i', 'd', '='] + name;
    assert(marked.take(4) =~= "pid="@);
    assert(marked.skip(4) =~= name);
    assert((seq![marked] + rest)[0] == marked);
    assert((seq![other] + rest)[0] == other);
    assert((seq![other] + rest).drop_first() =~= rest);
    if other.len() >= 4 {
        assert(other.take(4)[0] == other[0]);
    }
}

/// An answer is to the request that was made, for the same part, and brings the page
/// that was fetched or what went wrong.
pub proof fn law_answers_are_to_their_request(
    request: Request,
    page: BrowserPage,
    error: String,
    reply: Reply,
)
    ensures
        replies_to(request, FetchOutcome::Fetched(page), reply) ==> reply.generation
            == request.generation && reply.fragment == request.fragment && reply.result == Ok::<
            BrowserPage,
            String,
        >(page),
        replies_to(request, FetchOutcome::Failed(error), reply) ==> reply.result == Err::<
            BrowserPage,
            String,
        >(error) && reply.generation == request.generation,
{
}

/// A part whose target leads nowhere is not asked for: it says why, keeps what it showed
/// and is tried again after its interval.
pub proof fn law_bad_parts_say_why(
    context: PartialContext,
    state: PartialState,
    key: Seq<char>,
    block: PartialBlock,
    error: BrowserError,
)
    requires
        state.fragments.contains_key(key),
        !passed_over(context, state.fragments, key, block),
        resolved(context.url, block.target@) == Err::<Seq<char>, BrowserError>(error),
    ensures
        ({
            let after = partial_step(context, state, key, block);
            &&& after.requests == state.requests
            &&& after.fragments[key].error == Some(url_fault(error))
            &&& !after.fragments[key].pending
            &&& after.fragments[key].page == state.fragments[key].page
            &&& after.fragments[key].next == due(context.now, block.interval_seconds)
        }),
{
}

} // verus!
