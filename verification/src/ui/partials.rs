//! Parts of a page that other pages fill, and what the controls of a page do.
use vstd::prelude::*;
use vstd::slice::*;
use vstd::string::*;

use crate::browser::{text_view, text_views, BrowserPage, PageModel};
use crate::service::url_fault;
use crate::table::{has_key, lemma_list_map, TextMap};
use crate::text::{chars_of, same_text, starts_with, string_of, strip_prefix};
use crate::ui::browser::{
    due, due_after, resolve, resolved, Control, Fragment, PartialBlock, Request, Session,
};
use crate::ui::forms::{gathered, value_views};

verus! {

/// How many parts are asked for at once.
pub const MAX_PENDING_PARTIALS: usize = 4;

pub struct FragmentModel {
    pub page: Option<PageModel>,
    pub error: Option<Seq<char>>,
    pub pending: bool,
    pub next: u64,
    pub interval: u64,
}

pub open spec fn page_view(page: Option<BrowserPage>) -> Option<PageModel> {
    match page {
        Some(page) => Some(page@),
        None => None,
    }
}

impl View for Fragment {
    type V = FragmentModel;

    open spec fn view(&self) -> FragmentModel {
        FragmentModel {
            page: page_view(self.page),
            error: text_view(self.error),
            pending: self.pending,
            next: self.next,
            interval: self.interval,
        }
    }
}

pub type Fragments = Map<Seq<char>, FragmentModel>;

pub open spec fn fragment_views(fragments: Map<Seq<char>, Fragment>) -> Fragments {
    fragments.map_values(|fragment: Fragment| fragment@)
}

pub struct RequestModel {
    pub url: Seq<char>,
    pub reload: bool,
    pub fields: Map<Seq<char>, Seq<char>>,
    pub generation: u64,
    pub fragment: Option<Seq<char>>,
}

impl View for Request {
    type V = RequestModel;

    open spec fn view(&self) -> RequestModel {
        RequestModel {
            url: self.url@,
            reload: self.reload,
            fields: value_views(self.fields@),
            generation: self.generation,
            fragment: text_view(self.fragment),
        }
    }
}

pub open spec fn request_views(requests: Seq<Request>) -> Seq<RequestModel> {
    requests.map_values(|request: Request| request@)
}

/// The keys of the parts that are awaited.
pub open spec fn awaited(fragments: Fragments) -> Set<Seq<char>> {
    fragments.dom().filter(|key: Seq<char>| fragments[key].pending)
}

/// The name of a part: what follows `pid=` in the first of its fields that begins
/// so.
pub open spec fn partial_name(fields: Seq<Seq<char>>) -> Seq<char>
    decreases fields.len(),
{
    if fields.len() == 0 {
        Seq::empty()
    } else if starts_with(fields[0], "pid="@) {
        fields[0].skip(4)
    } else {
        partial_name(fields.drop_first())
    }
}

fn read_partial_name(fields: &Vec<String>) -> (r: String)
    ensures
        r@ == partial_name(text_views(fields@)),
{
    proof {
        reveal_strlit("pid=");
    }
    let ghost all = text_views(fields@);
    assert(all.skip(0) =~= all);
    for i in 0..fields.len()
        invariant
            all == text_views(fields@),
            "pid="@.len() == 4,
            partial_name(all) == partial_name(all.skip(i as int)),
    {
        proof {
            assert(all.skip(i as int)[0] == fields@[i as int]@);
            assert(all.skip(i as int).drop_first() =~= all.skip(i + 1));
        }
        let letters = chars_of(fields[i].as_str());
        if let Some(name) = strip_prefix(&letters, "pid=") {
            return string_of(name);
        }
    }
    assert(all.skip(fields@.len() as int) =~= Seq::empty());
    let none = String::new();
    assert(none@ =~= Seq::<char>::empty());
    none
}

/// What the requests for parts depend on and do not change.
pub struct PartialContext {
    pub url: Seq<char>,
    pub controls: Seq<Seq<char>>,
    pub form: Map<Seq<char>, Control>,
    pub generation: u64,
    pub forced: Option<Seq<char>>,
    pub now: u64,
}

/// What the requests for parts change.
pub struct PartialState {
    pub fragments: Fragments,
    pub dirty: bool,
    pub requests: Seq<RequestModel>,
}

/// Whether a part is passed over: where another one is asked for by name, where it
/// is awaited, or where it is not yet due.
pub open spec fn passed_over(
    context: PartialContext,
    fragments: Fragments,
    key: Seq<char>,
    block: PartialBlock,
) -> bool {
    let name = partial_name(text_views(block.fields@));
    ||| context.forced.is_some() && context.forced.unwrap().len() > 0 && context.forced.unwrap()
        != name
    ||| fragments.contains_key(key) && fragments[key].pending
    ||| fragments.contains_key(key) && context.forced.is_none() && (block.interval_seconds == 0
        || fragments[key].next > context.now)
}

pub open spec fn fresh_fragment(block: PartialBlock, now: u64) -> FragmentModel {
    FragmentModel {
        page: None,
        error: None,
        pending: false,
        next: now,
        interval: block.interval_seconds,
    }
}

/// What one part leads to: a request, or an error where its address cannot be
/// followed.
pub open spec fn partial_step(
    context: PartialContext,
    state: PartialState,
    key: Seq<char>,
    block: PartialBlock,
) -> PartialState {
    let fragment = if state.fragments.contains_key(key) {
        state.fragments[key]
    } else {
        fresh_fragment(block, context.now)
    };
    if passed_over(context, state.fragments, key, block) {
        state
    } else {
        match resolved(context.url, block.target@) {
            Err(error) => PartialState {
                fragments: state.fragments.insert(
                    key,
                    FragmentModel {
                        pending: false,
                        error: Some(url_fault(error)),
                        next: due(context.now, block.interval_seconds),
                        ..fragment
                    },
                ),
                dirty: true,
                ..state
            },
            Ok(url) => PartialState {
                fragments: state.fragments.insert(
                    key,
                    FragmentModel { pending: true, ..fragment },
                ),
                requests: state.requests.push(
                    RequestModel {
                        url,
                        reload: true,
                        fields: gathered(
                            text_views(block.fields@),
                            context.controls,
                            context.form,
                        ),
                        generation: context.generation,
                        fragment: Some(key),
                    },
                ),
                ..state
            },
        }
    }
}

/// What the parts of a page lead to, one after the other, until enough of them are
/// awaited.
pub open spec fn partial_run(
    context: PartialContext,
    state: PartialState,
    partials: Seq<(String, PartialBlock)>,
) -> PartialState
    decreases partials.len(),
{
    if partials.len() == 0 || awaited(state.fragments).len() >= MAX_PENDING_PARTIALS {
        state
    } else {
        partial_run(
            context,
            partial_step(context, state, partials[0].0@, partials[0].1),
            partials.drop_first(),
        )
    }
}

fn count_awaited(fragments: &TextMap<Fragment>) -> (r: usize)
    requires
        fragments.wf(),
    ensures
        r == awaited(fragment_views(fragments@)).len(),
{
    let mut count: usize = 0;
    let total = fragments.len();
    let ghost list = fragments.list();
    let ghost mut seen: Set<Seq<char>> = Set::empty();
    for i in 0..total
        invariant
            total == list.len(),
            list == fragments.list(),
            fragments.wf(),
            seen.finite(),
            count == seen.len(),
            count <= i,
            forall|k: Seq<char>| #[trigger]
                seen.contains(k) <==> exists|j: int|
                    0 <= j < i && (#[trigger] list[j]).0 == k && list[j].1.pending,
    {
        let pending = fragments.at(i).1.pending;
        let ghost before = seen;
        if pending {
            proof {
                let key = list[i as int].0;
                if seen.contains(key) {
                    let j = choose|j: int|
                        0 <= j < i && (#[trigger] list[j]).0 == key && list[j].1.pending;
                    crate::table::lemma_text_less_irreflexive(key);
                    assert(crate::table::text_less(list[j].0, list[i as int].0));
                }
                seen = seen.insert(key);
            }
            count = count + 1;
        }
        proof {
            assert forall|k: Seq<char>| #[trigger] seen.contains(k) <==> exists|j: int|
                0 <= j < i + 1 && (#[trigger] list[j]).0 == k && list[j].1.pending by {
                if seen.contains(k) {
                    if before.contains(k) {
                        let j = choose|j: int|
                            0 <= j < i && (#[trigger] list[j]).0 == k && list[j].1.pending;
                        assert(list[j].0 == k);
                    } else {
                        assert(list[i as int].0 == k);
                    }
                }
                if exists|j: int|
                    0 <= j < i + 1 && (#[trigger] list[j]).0 == k && list[j].1.pending {
                    let j = choose|j: int|
                        0 <= j < i + 1 && (#[trigger] list[j]).0 == k && list[j].1.pending;
                    if j < i {
                        assert(before.contains(k));
                    }
                }
            }
        }
    }
    proof {
        lemma_list_map(list);
        let all = fragment_views(fragments@);
        assert forall|k: Seq<char>| seen.contains(k) == awaited(all).contains(k) by {
            if seen.contains(k) {
                let j = choose|j: int|
                    0 <= j < total && (#[trigger] list[j]).0 == k && list[j].1.pending;
                assert(fragments@.contains_key(list[j].0));
            }
            if awaited(all).contains(k) {
                assert(fragments@.contains_key(k));
                assert(has_key(list, k));
                let j = choose|j: int| 0 <= j < list.len() && (#[trigger] list[j]).0 == k;
                assert(list[j].1.pending);
            }
        }
        assert(seen =~= awaited(all));
    }
    count
}

impl Session {
    pub open spec fn partial_context(&self, forced: Option<Seq<char>>, now: u64) -> PartialContext {
        PartialContext {
            url: self.url@,
            controls: text_views(self.layout.controls@),
            form: self.form@,
            generation: self.generation,
            forced,
            now,
        }
    }

    /// Asks for one part of a page.
    fn partial(&mut self, index: usize, forced: &Option<String>, now: u64) -> (r: Option<Request>)
        requires
            old(self).wf(),
            index < old(self).layout.partials@.len(),
        ensures
            final(self).wf(),
            ({
                let entry = old(self).layout.partials@[index as int];
                let before = PartialState {
                    fragments: fragment_views(old(self).fragments@),
                    dirty: old(self).dirty,
                    requests: Seq::empty(),
                };
                let after = partial_step(
                    old(self).partial_context(text_view(*forced), now),
                    before,
                    entry.0@,
                    entry.1,
                );
                &&& fragment_views(final(self).fragments@) == after.fragments
                &&& final(self).dirty == after.dirty
                &&& after.requests == match r {
                    Some(request) => seq![request@],
                    None => Seq::empty(),
                }
            }),
            *final(self) == (Session {
                fragments: final(self).fragments,
                dirty: final(self).dirty,
                ..*old(self)
            }),
    {
        let ghost entry = self.layout.partials@[index as int];
        let ghost before = fragment_views(self.fragments@);
        let key = self.layout.partials[index].0.clone();
        let interval: u64 = self.layout.partials[index].1.interval_seconds;
        let name = read_partial_name(&self.layout.partials[index].1.fields);
        if let Some(wanted) = forced {
            if !wanted.as_str().is_empty() && !same_text(wanted.as_str(), name.as_str()) {
                return None;
            }
        }
        if let Some(fragment) = self.fragments.get(key.as_str()) {
            assert(before[key@] == fragment@);
            if fragment.pending || (forced.is_none() && (interval == 0 || fragment.next > now)) {
                return None;
            }
        }
        let answer = resolve(
            self.url.as_str(),
            self.layout.partials[index].1.target.as_str(),
        );
        let fields = self.fields(&self.layout.partials[index].1.fields);
        let known = self.fragments.contains(key.as_str());
        let ghost original = self.fragments@;
        let mut fragment = if known {
            match self.fragments.remove(key.as_str()) {
                Some(fragment) => fragment,
                None => Fragment {
                    page: None,
                    error: None,
                    pending: false,
                    next: now,
                    interval,
                },
            }
        } else {
            Fragment { page: None, error: None, pending: false, next: now, interval }
        };
        let ghost base = fragment@;
        proof {
            if before.contains_key(key@) {
                assert(before[key@] == base);
            } else {
                assert(base == fresh_fragment(entry.1, now));
            }
        }
        match answer {
            Ok(url) => {
                fragment.pending = true;
                self.fragments.insert(key.clone(), fragment);
                proof {
                    assert(fragment_views(self.fragments@) =~= before.insert(
                        key@,
                        FragmentModel { pending: true, ..base },
                    ));
                }
                let request = Request {
                    url,
                    reload: true,
                    fields,
                    generation: self.generation,
                    fragment: Some(key),
                };
                assert(Seq::<RequestModel>::empty().push(request@) =~= seq![request@]);
                Some(request)
            },
            Err(error) => {
                fragment.pending = false;
                fragment.error = Some(error.message());
                fragment.next = due_after(now, interval);
                self.fragments.insert(key, fragment);
                self.dirty = true;
                proof {
                    assert(fragment_views(self.fragments@) =~= before.insert(
                        entry.0@,
                        FragmentModel {
                            pending: false,
                            error: Some(url_fault(error)),
                            next: due(now, interval),
                            ..base
                        },
                    ));
                }
                None
            },
        }
    }

    /// Asks for the parts of the page that are due, or for those of a name. `now`
    /// is in milliseconds.
    pub fn partials(&mut self, forced: &Option<String>, now: u64) -> (r: Vec<Request>)
        requires
            old(self).wf(),
        ensures
            final(self).wf(),
            old(self).loading || old(self).stopped ==> r@.len() == 0 && *final(self) == *old(self),
            !old(self).loading && !old(self).stopped ==> {
                let after = partial_run(
                    old(self).partial_context(text_view(*forced), now),
                    PartialState {
                        fragments: fragment_views(old(self).fragments@),
                        dirty: old(self).dirty,
                        requests: Seq::empty(),
                    },
                    old(self).layout.partials@,
                );
                &&& fragment_views(final(self).fragments@) == after.fragments
                &&& final(self).dirty == after.dirty
                &&& request_views(r@) == after.requests
                &&& *final(self) == (Session {
                    fragments: final(self).fragments,
                    dirty: final(self).dirty,
                    ..*old(self)
                })
            },
    {
        let mut requests: Vec<Request> = Vec::new();
        if self.loading || self.stopped {
            return requests;
        }
        let ghost context = self.partial_context(text_view(*forced), now);
        let ghost all = self.layout.partials@;
        let ghost start = PartialState {
            fragments: fragment_views(self.fragments@),
            dirty: self.dirty,
            requests: Seq::empty(),
        };
        let ghost mut state = start;
        proof {
            assert(all.skip(0) =~= all);
            assert(request_views(requests@) =~= Seq::empty());
        }
        let total = self.layout.partials.len();
        let mut i: usize = 0;
        while i < total
            invariant
                self.wf(),
                i <= total,
                total == all.len(),
                all == self.layout.partials@,
                all == old(self).layout.partials@,
                !old(self).loading,
                !old(self).stopped,
                context == self.partial_context(text_view(*forced), now),
                context == old(self).partial_context(text_view(*forced), now),
                start == (PartialState {
                    fragments: fragment_views(old(self).fragments@),
                    dirty: old(self).dirty,
                    requests: Seq::empty(),
                }),
                state == (PartialState {
                    fragments: fragment_views(self.fragments@),
                    dirty: self.dirty,
                    requests: request_views(requests@),
                }),
                partial_run(context, start, all) == partial_run(
                    context,
                    state,
                    all.skip(i as int),
                ),
                *self == (Session {
                    fragments: self.fragments,
                    dirty: self.dirty,
                    ..*old(self)
                }),
            decreases total - i,
        {
            if count_awaited(&self.fragments) >= MAX_PENDING_PARTIALS {
                return requests;
            }
            let ghost before = state;
            let ghost gathered_before = requests@;
            proof {
                assert(all.skip(i as int)[0] == all[i as int]);
                assert(all.skip(i as int).drop_first() =~= all.skip(i + 1));
                state = partial_step(context, before, all[i as int].0@, all[i as int].1);
            }
            let answer = self.partial(i, forced, now);
            match answer {
                Some(request) => {
                    requests.push(request);
                    assert(request_views(requests@) =~= request_views(gathered_before).push(
                        request@,
                    ));
                },
                None => {},
            }
            proof {
                lemma_step_adds(context, before, all[i as int].0@, all[i as int].1);
                assert(state.requests =~= request_views(requests@));
            }
            i = i + 1;
        }
        assert(all.skip(i as int) =~= Seq::empty());
        requests
    }
}

/// What a step asks for does not depend on what was asked for before.
proof fn lemma_step_adds(
    context: PartialContext,
    state: PartialState,
    key: Seq<char>,
    block: PartialBlock,
)
    ensures
        ({
            let alone = partial_step(
                context,
                PartialState { requests: Seq::empty(), ..state },
                key,
                block,
            );
            let here = partial_step(context, state, key, block);
            &&& here.requests == state.requests + alone.requests
            &&& here.fragments == alone.fragments
            &&& here.dirty == alone.dirty
        }),
{
    let alone = partial_step(
        context,
        PartialState { requests: Seq::empty(), ..state },
        key,
        block,
    );
    let here = partial_step(context, state, key, block);
    assert(here.requests =~= state.requests + alone.requests);
}

proof fn lemma_step_awaits_one_more(
    context: PartialContext,
    state: PartialState,
    key: Seq<char>,
    block: PartialBlock,
)
    requires
        awaited(state.fragments).finite(),
    ensures
        awaited(partial_step(context, state, key, block).fragments).finite(),
        awaited(partial_step(context, state, key, block).fragments).len() <= awaited(
            state.fragments,
        ).len() + 1,
{
    let before = awaited(state.fragments);
    let after = awaited(partial_step(context, state, key, block).fragments);
    assert(after.subset_of(before.insert(key)));
    vstd::set_lib::lemma_len_subset(after, before.insert(key));
}

/// Never more than a fixed number of parts are awaited at once.
pub proof fn law_few_parts_are_awaited(
    context: PartialContext,
    state: PartialState,
    partials: Seq<(String, PartialBlock)>,
)
    requires
        awaited(state.fragments).finite(),
        awaited(state.fragments).len() <= MAX_PENDING_PARTIALS,
    ensures
        awaited(partial_run(context, state, partials).fragments).len() <= MAX_PENDING_PARTIALS,
    decreases partials.len(),
{
    if partials.len() > 0 && awaited(state.fragments).len() < MAX_PENDING_PARTIALS {
        let next = partial_step(context, state, partials[0].0@, partials[0].1);
        lemma_step_awaits_one_more(context, state, partials[0].0@, partials[0].1);
        law_few_parts_are_awaited(context, next, partials.drop_first());
    }
}

/// A part that is awaited is not asked for again, and one without an interval is
/// asked for once unless it is asked for by name.
pub proof fn law_parts_are_not_asked_for_twice(
    context: PartialContext,
    state: PartialState,
    key: Seq<char>,
    block: PartialBlock,
)
    requires
        state.fragments.contains_key(key),
        state.fragments[key].pending || (context.forced.is_none() && block.interval_seconds == 0),
    ensures
        partial_step(context, state, key, block) == state,
{
}

} // verus!
