//! The page browser: navigation, history, forms and partial pages.
use vstd::prelude::*;
use vstd::slice::*;
use vstd::string::*;

use crate::browser::{
    is_page_path, law_canonical_url_is_read_back, text_views, url_canonical, url_parse,
    BrowserError, BrowserPage, NomadUrl,
};
use crate::hexadecimal::{hex_text, law_hex_text_is_read_back};
use crate::service::url_fault;
use crate::table::TextMap;
use crate::text::{
    chars_of, find_char, find_in, is_hex_char, lemma_find_char, same_text, starts_with, string_of, strip_prefix,
};
use crate::ui::lines::labelled;

verus! {

/// A part of a page that can be acted on.
#[derive(Debug)]
pub enum Control {
    Input { name: String, value: String, cursor: usize },
    Choice { name: String, value: String, checked: bool, radio: bool },
    Link { target: String, fields: Vec<String> },
}

/// A part of a page that another page fills. `next` is the time, in milliseconds,
/// at which it is to be asked for again, `interval` is in seconds.
#[derive(Debug)]
pub struct Fragment {
    pub page: Option<BrowserPage>,
    pub error: Option<String>,
    pub pending: bool,
    pub next: u64,
    pub interval: u64,
}

/// What a part that another page fills asks for.
#[derive(Debug)]
pub struct PartialBlock {
    pub target: String,
    pub interval_seconds: u64,
    pub fields: Vec<String>,
}

/// Where the parts of a page are once it is laid out in rows.
#[derive(Debug)]
pub struct PageLayout {
    pub controls: Vec<String>,
    pub headings: Vec<usize>,
    pub anchors: TextMap<usize>,
    pub partials: Vec<(String, PartialBlock)>,
    pub rows: usize,
    pub width: usize,
}

impl PageLayout {
    pub open spec fn wf(&self) -> bool {
        self.anchors.wf()
    }

    pub fn new() -> (r: Self)
        ensures
            r.wf(),
            r.controls@.len() == 0,
            r.headings@.len() == 0,
            r.anchors@ == Map::<Seq<char>, usize>::empty(),
            r.partials@.len() == 0,
            r.rows == 0,
            r.width == 0,
    {
        PageLayout {
            controls: Vec::new(),
            headings: Vec::new(),
            anchors: TextMap::new(),
            partials: Vec::new(),
            rows: 0,
            width: 0,
        }
    }
}

/// A request for a page, or for a part of one.
#[derive(Debug)]
pub struct Request {
    pub url: String,
    pub reload: bool,
    pub fields: TextMap<String>,
    pub generation: u64,
    pub fragment: Option<String>,
}

/// The answer to a request.
#[derive(Debug)]
pub struct Reply {
    pub generation: u64,
    pub fragment: Option<String>,
    pub result: Result<BrowserPage, String>,
}

/// Whether an answer is to a request and says what came of it.
pub open spec fn replies_to(request: Request, outcome: FetchOutcome, reply: Reply) -> bool {
    &&& reply.generation == request.generation
    &&& reply.fragment == request.fragment
    &&& match outcome {
        FetchOutcome::Fetched(page) => reply.result == Ok::<BrowserPage, String>(page),
        FetchOutcome::Failed(error) => reply.result == Err::<BrowserPage, String>(error),
        _ => reply.result is Err,
    }
}

impl Request {
    /// The answer to a request that cannot be made.
    pub fn reject(self, error: &str) -> (r: Reply)
        ensures
            r.generation == self.generation,
            r.fragment == self.fragment,
            r.result is Err,
            r.result->Err_0@ == error@,
    {
        Reply {
            generation: self.generation,
            fragment: self.fragment,
            result: Err(error.to_string()),
        }
    }
}

/// How a request ended.
#[derive(Debug)]
pub enum FetchOutcome {
    Fetched(BrowserPage),
    Failed(String),
    TimedOut,
    /// Nobody waits for it any more.
    Cancelled,
}

impl Request {
    /// The answer to a request that ended; none where it was cancelled.
    pub fn execute(self, outcome: FetchOutcome) -> (r: Option<Reply>)
        ensures
            r.is_some() ==> replies_to(self, outcome, r.unwrap()),
            r.is_none() == outcome is Cancelled,
            r.is_some() ==> {
                let reply = r.unwrap();
                &&& reply.generation == self.generation
                &&& reply.fragment == self.fragment
                &&& match outcome {
                    FetchOutcome::Fetched(page) => reply.result == Ok::<BrowserPage, String>(page),
                    FetchOutcome::Failed(error) => reply.result == Err::<BrowserPage, String>(
                        error,
                    ),
                    _ => reply.result is Err && reply.result->Err_0@ == "Page request timed out"@,
                }
            },
    {
        let result = match outcome {
            FetchOutcome::Cancelled => {
                return None;
            },
            FetchOutcome::Fetched(page) => Ok(page),
            FetchOutcome::Failed(error) => Err(error),
            FetchOutcome::TimedOut => Err("Page request timed out".to_string()),
        };
        Some(Reply { generation: self.generation, fragment: self.fragment, result })
    }
}

/// The node of an address: what stands before its first colon.
pub open spec fn node_of(url: Seq<char>) -> Seq<char> {
    url.take(find_char(url, ':') as int)
}

/// What a link leads to, written out: a link that names no node stays on the
/// current one.
pub open spec fn absolute(current: Seq<char>, target: Seq<char>) -> Seq<char> {
    if target.len() > 0 && target[0] == ':' {
        node_of(current) + target
    } else if starts_with(target, "/page/"@) || starts_with(target, "/file/"@) {
        node_of(current).push(':') + target
    } else {
        target
    }
}

/// The address that a link leads to.
pub open spec fn resolved(current: Seq<char>, target: Seq<char>) -> Result<Seq<char>, BrowserError> {
    match url_parse(absolute(current, target)) {
        Ok(url) => Ok(url_canonical(url)),
        Err(error) => Err(error),
    }
}

pub fn resolve(current: &str, target: &str) -> (r: Result<String, BrowserError>)
    ensures
        r is Ok == resolved(current@, target@) is Ok,
        r is Ok ==> r->Ok_0@ == resolved(current@, target@)->Ok_0,
        r is Err ==> r->Err_0 == resolved(current@, target@)->Err_0,
{
    let here = chars_of(current);
    proof {
        lemma_find_char(current@, ':');
    }
    let n: usize = find_in(&here, ':');
    let node_chars = slice_subrange(&here, 0, n);
    assert(node_chars@ =~= node_of(current@));
    let mut full = string_of(node_chars);
    let letters = chars_of(target);
    if letters.len() > 0 && letters[0] == ':' {
        full.append(target);
    } else if strip_prefix(&letters, "/page/").is_some() || strip_prefix(
        &letters,
        "/file/",
    ).is_some() {
        full.push(':');
        full.append(target);
    } else {
        full = target.to_string();
    }
    assert(full@ =~= absolute(current@, target@));
    match NomadUrl::parse(full.as_str()) {
        Ok(url) => Ok(url.canonical()),
        Err(error) => Err(error),
    }
}

/// The target under which a link is kept: the address that it leads to from the
/// page it stands on, so that it leads there from a page that holds this one as a
/// part, too. What is no address stays as it is.
pub open spec fn kept_target(base: Seq<char>, target: Seq<char>) -> Seq<char> {
    match resolved(base, target) {
        Ok(url) => url,
        Err(_) => target,
    }
}

pub fn link_target(base: &str, target: &str) -> (r: String)
    ensures
        r@ == kept_target(base@, target@),
{
    match resolve(base, target) {
        Ok(url) => url,
        Err(_) => target.to_string(),
    }
}

/// A link of a part leads where it leads on its own page, whatever page the part is
/// shown on.
pub proof fn law_links_of_parts_keep_their_node(
    base: Seq<char>,
    target: Seq<char>,
    current: Seq<char>,
)
    requires
        resolved(base, target) is Ok,
    ensures
        resolved(current, kept_target(base, target)) == resolved(base, target),
{
    let value = absolute(base, target);
    let url = url_parse(value)->Ok_0;
    let kept = kept_target(base, target);
    law_canonical_url_is_read_back(value);
    law_hex_text_is_read_back(url.destination_hash);
    reveal_strlit("/page/");
    reveal_strlit("/file/");
    assert(url.destination_hash.len() == 16);
    assert(kept[0] == hex_text(url.destination_hash)[0]);
    assert(is_hex_char(kept[0]));
    assert("/page/"@[0] == '/' && "/file/"@[0] == '/');
    assert(!starts_with(kept, "/page/"@)) by {
        if starts_with(kept, "/page/"@) {
            assert(kept.take(6)[0] == kept[0]);
        }
    }
    assert(!starts_with(kept, "/file/"@)) by {
        if starts_with(kept, "/file/"@) {
            assert(kept.take(6)[0] == kept[0]);
        }
    }
    assert(absolute(current, kept) == kept);
}

/// Whether an address is one of a page.
pub open spec fn is_page_url(url: Seq<char>) -> bool {
    match url_parse(url) {
        Ok(parsed) => is_page_path(parsed.path),
        Err(_) => false,
    }
}

pub fn page_url(url: &str) -> (r: bool)
    ensures
        r == is_page_url(url@),
{
    match NomadUrl::parse(url) {
        Ok(parsed) => parsed.is_page(),
        Err(_) => false,
    }
}

/// A browser and what it shows.
#[derive(Debug)]
pub struct Session {
    pub url: String,
    pub page: Option<BrowserPage>,
    pub form: TextMap<Control>,
    pub fragments: TextMap<Fragment>,
    pub layout: PageLayout,
    pub columns: usize,
    pub dirty: bool,
    pub top: usize,
    pub left: usize,
    pub focus: Option<String>,
    pub status: String,
    pub loading: bool,
    pub generation: u64,
    pub history: Vec<String>,
    pub position: usize,
    pub stopped: bool,
}

/// The history after a page was visited: what lay ahead is gone.
pub open spec fn visited(history: Seq<Seq<char>>, position: int, url: Seq<char>) -> Seq<Seq<char>> {
    if position < history.len() && history[position] == url {
        history
    } else if history.len() == 0 {
        seq![url]
    } else {
        history.take(position + 1).push(url)
    }
}

/// Where the browser stands in its history after a page was visited: where it
/// stood, if it was on that page; otherwise at the end.
pub open spec fn visited_at(history: Seq<Seq<char>>, position: int, url: Seq<char>) -> int {
    if position < history.len() && history[position] == url {
        position
    } else {
        visited(history, position, url).len() - 1
    }
}

/// What following a link does. Where it can be followed, the page is asked for and
/// every request made before is void; where not, the reason is said.
pub open spec fn navigated(
    before: Session,
    target: Seq<char>,
    reload: bool,
    record: bool,
    after: Session,
    asked: Option<Request>,
) -> bool {
    let url = resolved(before.base(), target)->Ok_0;
    &&& asked.is_some() == before.link_fault(target).is_none()
    &&& asked.is_none() ==> after.status@ == before.link_fault(target).unwrap() && after == (
    Session { status: after.status, ..before })
    &&& asked.is_some() ==> {
        &&& asked.unwrap().url@ == url
        &&& asked.unwrap().reload == reload
        &&& asked.unwrap().generation == before.generation + 1
        &&& asked.unwrap().fragment.is_none()
        &&& after.url@ == url
        &&& after.status@ == "Loading "@ + url
        &&& after.fragments@ == Map::<Seq<char>, Fragment>::empty()
        &&& record ==> text_views(after.history@) == visited(
            text_views(before.history@),
            before.position as int,
            url,
        ) && after.position == visited_at(
            text_views(before.history@),
            before.position as int,
            url,
        ) && after.history@[after.position as int]@ == url
        &&& !record ==> after.history == before.history && after.position == before.position
        &&& after == (Session {
            url: after.url,
            status: after.status,
            fragments: after.fragments,
            history: after.history,
            position: after.position,
            generation: (before.generation + 1) as u64,
            loading: true,
            stopped: false,
            ..before
        })
    }
}

/// What a step through the history does: nothing at its ends; otherwise the page
/// there is asked for, and the history stays as it is.
pub open spec fn stepped(
    before: Session,
    forward: bool,
    after: Session,
    asked: Option<Request>,
) -> bool {
    match before.step(forward) {
        None => asked.is_none() && after == before,
        Some(index) => {
            &&& navigated(
                Session { position: index as usize, ..before },
                before.history@[index]@,
                false,
                false,
                after,
                asked,
            )
            &&& asked.is_some() ==> asked.unwrap().fields@ == Map::<Seq<char>, String>::empty()
        },
    }
}

/// What stopping does: what was asked for is void.
pub open spec fn halted(before: Session, after: Session) -> bool {
    &&& after.status@ == "Stopped"@
    &&& after == (Session {
        loading: false,
        stopped: true,
        generation: (before.generation + 1) as u64,
        status: after.status,
        ..before
    })
}

impl Session {
    pub open spec fn wf(&self) -> bool {
        &&& self.form.wf()
        &&& self.fragments.wf()
        &&& self.layout.wf()
        &&& self.position < self.history@.len() || (self.history@.len() == 0 && self.position == 0)
    }

    pub fn new(url: String) -> (r: Self)
        ensures
            r.wf(),
            r.url == url,
            r.page.is_none(),
            r.form@ == Map::<Seq<char>, Control>::empty(),
            r.fragments@ == Map::<Seq<char>, Fragment>::empty(),
            r.dirty,
            r.top == 0,
            r.left == 0,
            r.focus.is_none(),
            r.status@ == "Loading\u{2026}"@,
            !r.loading,
            r.generation == 0,
            r.history@.len() == 0,
            r.position == 0,
            !r.stopped,
            r.columns == 0,
            r.layout.rows == 0,
            r.layout.width == 0,
            r.layout.anchors@ == Map::<Seq<char>, usize>::empty(),
            r.layout.headings@.len() == 0,
            r.layout.controls@.len() == 0,
            r.layout.partials@.len() == 0,
    {
        Session {
            url,
            page: None,
            form: TextMap::new(),
            fragments: TextMap::new(),
            layout: PageLayout::new(),
            columns: 0,
            dirty: true,
            top: 0,
            left: 0,
            focus: None,
            status: "Loading\u{2026}".to_string(),
            loading: false,
            generation: 0,
            history: Vec::new(),
            position: 0,
            stopped: false,
        }
    }

    /// The address that links are relative to.
    pub open spec fn base(&self) -> Seq<char> {
        match self.page {
            Some(page) => page.url@,
            None => self.url@,
        }
    }

    /// What is said of a link that cannot be followed.
    pub open spec fn link_fault(&self, target: Seq<char>) -> Option<Seq<char>> {
        match resolved(self.base(), target) {
            Err(error) => Some(url_fault(error)),
            Ok(url) => if is_page_url(url) {
                None
            } else {
                Some("This is a file link; use the web frontend to download files"@)
            },
        }
    }

    /// Follows a link. Every request made before is void from then on.
    pub fn navigate(
        &mut self,
        target: &str,
        reload: bool,
        fields: TextMap<String>,
        record: bool,
    ) -> (r: Option<Request>)
        requires
            old(self).wf(),
            old(self).generation < u64::MAX,
        ensures
            final(self).wf(),
            navigated(*old(self), target@, reload, record, *final(self), r),
            r.is_some() ==> r.unwrap().fields == fields,
    {
        let answer = match &self.page {
            Some(page) => resolve(page.url.as_str(), target),
            None => resolve(self.url.as_str(), target),
        };
        let url = match answer {
            Ok(url) => url,
            Err(error) => {
                self.status = error.message();
                return None;
            },
        };
        if !page_url(url.as_str()) {
            self.status =
            "This is a file link; use the web frontend to download files".to_string();
            return None;
        }
        self.generation = self.generation + 1;
        self.loading = true;
        self.stopped = false;
        self.fragments = TextMap::new();
        self.status = labelled("Loading ", url.as_str());
        self.url = url.clone();
        if record {
            let ghost past = text_views(self.history@);
            let here = self.position < self.history.len() && same_text(
                self.history[self.position].as_str(),
                url.as_str(),
            );
            if here {
                assert(past[self.position as int] == url@);
            } else {
                if self.history.len() > 0 {
                    let keep: usize = self.position + 1;
                    self.history.truncate(keep);
                    assert(text_views(self.history@) =~= past.take(keep as int));
                }
                let ghost kept = text_views(self.history@);
                self.history.push(url.clone());
                self.position = self.history.len() - 1;
                assert(text_views(self.history@) =~= kept.push(url@));
                assert(text_views(self.history@) =~= visited(
                    past,
                    old(self).position as int,
                    url@,
                ));
            }
        }
        Some(Request { url, reload, fields, generation: self.generation, fragment: None })
    }

    /// Where the next step through the history leads, if anywhere.
    pub open spec fn step(&self, forward: bool) -> Option<int> {
        let index = if forward {
            self.position + 1
        } else if self.position > 0 {
            self.position - 1
        } else {
            0
        };
        if index < self.history@.len() && index != self.position {
            Some(index)
        } else {
            None
        }
    }

    /// Goes one step through the history.
    pub fn go_history(&mut self, forward: bool) -> (r: Option<Request>)
        requires
            old(self).wf(),
            old(self).generation < u64::MAX,
        ensures
            final(self).wf(),
            stepped(*old(self), forward, *final(self), r),
    {
        let count: usize = self.history.len();
        let index: usize = if forward {
            if self.position >= count || self.position + 1 >= count {
                return None;
            }
            self.position + 1
        } else if self.position > 0 {
            self.position - 1
        } else {
            return None;
        };
        let url = self.history[index].clone();
        self.position = index;
        self.navigate(url.as_str(), false, TextMap::new(), false)
    }

    /// Stops loading. Answers that come later are void.
    pub fn stop(&mut self)
        requires
            old(self).wf(),
            old(self).generation < u64::MAX,
        ensures
            final(self).wf(),
            halted(*old(self), *final(self)),
    {
        self.loading = false;
        self.stopped = true;
        self.generation = self.generation + 1;
        self.status = "Stopped".to_string();
    }
}

/// After another page was visited, a step back leads to the page before it, and
/// there is no step forward.
pub proof fn law_back_leads_to_the_page_before(
    before: Session,
    target: Seq<char>,
    reload: bool,
    after: Session,
    asked: Option<Request>,
)
    requires
        before.wf(),
        before.history@.len() > 0,
        navigated(before, target, reload, true, after, asked),
        asked.is_some(),
        asked.unwrap().url@ != before.history@[before.position as int]@,
    ensures
        after.step(false) == Some(before.position as int),
        after.step(true).is_none(),
        after.history@[before.position as int]@ == before.history@[before.position as int]@,
        after.history@[after.position as int]@ == asked.unwrap().url@,
{
    let past = text_views(before.history@);
    let url = asked.unwrap().url@;
    let place = before.position as int;
    assert(past[place] == before.history@[place]@);
    assert(text_views(after.history@) == past.take(place + 1).push(url));
    assert(text_views(after.history@).len() == place + 2);
    assert(text_views(after.history@)[place] == past[place]);
    assert(text_views(after.history@)[place] == after.history@[place]@);
}

/// The time, in milliseconds, some seconds from now, one at least.
pub open spec fn due(now: u64, interval: u64) -> u64 {
    let wait = if interval < 1 {
        1000
    } else {
        interval * 1000
    };
    if now + wait > u64::MAX {
        u64::MAX
    } else {
        (now + wait) as u64
    }
}

pub fn due_after(now: u64, interval: u64) -> (r: u64)
    ensures
        r == due(now, interval),
{
    let seconds: u64 = if interval < 1 {
        1
    } else {
        interval
    };
    if seconds > u64::MAX / 1000 {
        return u64::MAX;
    }
    let wait: u64 = seconds * 1000;
    if now > u64::MAX - wait {
        u64::MAX
    } else {
        now + wait
    }
}

/// What is said of a page that arrived.
pub open spec fn arrival(page: BrowserPage) -> Seq<char> {
    (if page.from_cache {
        "Cached"@
    } else {
        "Received"@
    }) + " \u{2014} "@ + match page.title {
        Some(title) => title@,
        None => page.url@,
    }
}

/// A part of a page after an answer for it.
pub open spec fn answered(
    before: Fragment,
    result: Result<BrowserPage, String>,
    now: u64,
    after: Fragment,
) -> bool {
    &&& !after.pending
    &&& after.next == due(now, before.interval)
    &&& after.interval == before.interval
    &&& match result {
        Ok(page) => after.page == Some(page) && after.error.is_none(),
        Err(error) => after.page == before.page && after.error == Some(error),
    }
}

/// What an answer does: nothing where it is to a request that is void; otherwise
/// the page, or a part of it, is taken, or it is said why it could not be had.
pub open spec fn polled(before: Session, reply: Reply, now: u64, after: Session) -> bool {
    &&& reply.generation != before.generation ==> after == before
    &&& reply.generation == before.generation && reply.fragment.is_some() ==> {
        let key = reply.fragment.unwrap()@;
        &&& after == (Session {
            fragments: after.fragments,
            status: after.status,
            dirty: true,
            ..before
        })
        &&& !before.fragments@.contains_key(key) ==> after.fragments == before.fragments
            && after.status == before.status
        &&& before.fragments@.contains_key(key) ==> {
            &&& after.fragments@.contains_key(key)
            &&& answered(before.fragments@[key], reply.result, now, after.fragments@[key])
            &&& after.fragments@ == before.fragments@.insert(key, after.fragments@[key])
            &&& after.status@ == match reply.result {
                Ok(_) => before.status@,
                Err(error) => "Partial: "@ + error@,
            }
        }
    }
    &&& reply.generation == before.generation && reply.fragment.is_none()
        ==> match reply.result {
        Ok(page) => {
            &&& after.status@ == arrival(page)
            &&& after.url@ == page.url@
            &&& after.form@ == Map::<Seq<char>, Control>::empty()
            &&& after == (Session {
                status: after.status,
                url: after.url,
                form: after.form,
                page: Some(page),
                top: 0,
                left: 0,
                focus: None,
                loading: false,
                dirty: true,
                ..before
            })
        },
        Err(error) => {
            &&& after.status@ == "Load failed: "@ + error@
            &&& after == (Session { status: after.status, loading: false, dirty: true, ..before })
        },
    }
}

/// The answer to a request counts for nothing once a later link was followed,
/// whatever it holds.
pub proof fn law_answers_to_earlier_requests_do_not_count(
    before: Session,
    first: Seq<char>,
    visited_first: Session,
    asked_first: Option<Request>,
    second: Seq<char>,
    record: bool,
    visited_second: Session,
    asked_second: Option<Request>,
    reply: Reply,
    now: u64,
    after: Session,
)
    requires
        before.generation < u64::MAX - 1,
        navigated(before, first, false, record, visited_first, asked_first),
        asked_first.is_some(),
        navigated(visited_first, second, false, record, visited_second, asked_second),
        asked_second.is_some(),
        reply.generation == asked_first.unwrap().generation,
        polled(visited_second, reply, now, after),
    ensures
        after == visited_second,
{
}

/// What was asked for before the browser was stopped counts for nothing.
pub proof fn law_stopping_voids_what_was_asked_for(
    before: Session,
    stopped: Session,
    reply: Reply,
    now: u64,
    after: Session,
)
    requires
        before.generation < u64::MAX,
        halted(before, stopped),
        reply.generation == before.generation,
        polled(stopped, reply, now, after),
    ensures
        after == stopped,
{
}

impl Session {
    /// Takes an answer. `now` is in milliseconds.
    pub fn poll(&mut self, reply: Reply, now: u64)
        requires
            old(self).wf(),
        ensures
            final(self).wf(),
            polled(*old(self), reply, now, *final(self)),
    {
        if reply.generation != self.generation {
            return ;
        }
        self.dirty = true;
        match reply.fragment {
            Some(key) => {
                let ghost before = self.fragments@;
                if !self.fragments.contains(key.as_str()) {
                    return ;
                }
                if let Some(old_fragment) = self.fragments.remove(key.as_str()) {
                    let mut fragment = old_fragment;
                    fragment.pending = false;
                    fragment.next = due_after(now, fragment.interval);
                    match reply.result {
                        Ok(page) => {
                            fragment.page = Some(page);
                            fragment.error = None;
                        },
                        Err(error) => {
                            self.status = labelled("Partial: ", error.as_str());
                            fragment.error = Some(error);
                        },
                    }
                    self.fragments.insert(key, fragment);
                    assert(self.fragments@ =~= before.insert(key@, fragment));
                }
            },
            None => {
                self.loading = false;
                match reply.result {
                    Ok(page) => {
                        let mut status = if page.from_cache {
                            "Cached \u{2014} ".to_string()
                        } else {
                            "Received \u{2014} ".to_string()
                        };
                        proof {
                            reveal_strlit("Cached \u{2014} ");
                            reveal_strlit("Received \u{2014} ");
                            reveal_strlit("Cached");
                            reveal_strlit("Received");
                            reveal_strlit(" \u{2014} ");
                            assert("Cached \u{2014} "@ =~= "Cached"@ + " \u{2014} "@);
                            assert("Received \u{2014} "@ =~= "Received"@ + " \u{2014} "@);
                        }
                        match &page.title {
                            Some(title) => status.append(title.as_str()),
                            None => status.append(page.url.as_str()),
                        }
                        self.status = status;
                        self.url = page.url.clone();
                        self.page = Some(page);
                        self.form = TextMap::new();
                        self.top = 0;
                        self.left = 0;
                        self.focus = None;
                    },
                    Err(error) => {
                        self.status = labelled("Load failed: ", error.as_str());
                    },
                }
            },
        }
    }
}

} // verus!
