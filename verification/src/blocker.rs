use vstd::prelude::*;
use vstd::seq_lib::*;
use crate::engine;
use crate::engine::{
    NetworkMatchModel, ResourceModel, cosmetic_resources_of, generic_hide_selectors_of,
    network_match_of, pairs_view, request_parses, resource_model, resource_store_of, style_map,
};

verus! {

/// The blocking-enabled switch. The stored bit records whether blocking is
/// disabled, so the observable flag is its negation.
#[derive(Debug, Clone)]
pub struct BlockingDisabledStore {
    disabled: bool,
}

impl BlockingDisabledStore {
    /// Whether blocking is currently enabled.
    pub closed spec fn spec_enabled(&self) -> bool {
        !self.disabled
    }

    /// A fresh store: blocking starts enabled.
    pub fn new() -> (r: Self)
        ensures
            r.spec_enabled(),
    {
        BlockingDisabledStore { disabled: false }
    }

    /// Reads the flag.
    pub fn is_enabled(&self) -> (r: bool)
        ensures
            r == self.spec_enabled(),
    {
        !self.disabled
    }

    /// Writes the flag.
    pub fn set(&mut self, enabled: bool)
        ensures
            final(self).spec_enabled() == enabled,
    {
        self.disabled = !enabled;
    }
}

/// A cosmetic query: the page URL and the ids and class tokens seen on it.
#[derive(Debug)]
pub struct CosmeticRequest {
    /// The URL of the page the body belongs to.
    pub url: String,
    /// The id attribute values collected from the page.
    pub ids: Vec<String>,
    /// The class tokens collected from the page.
    pub classes: Vec<String>,
}

/// A network query: the requested URL and the referer it was requested from.
#[derive(Debug)]
pub struct NetworkUrl {
    /// The requested URL.
    pub url: String,
    /// The referer header of the request, empty when absent.
    pub referer: String,
}

/// One message to the filter-engine worker.
#[derive(Debug)]
pub enum RequestKind {
    /// Ask whether a network request should be blocked.
    Url(NetworkUrl),
    /// Ask for the cosmetic resources of a page.
    Cosmetic(CosmeticRequest),
    /// Rebuild the engine from the given rule list texts.
    ReplaceEngine(Vec<String>),
}

/// What the engine decided about one network request.
#[derive(Debug, Clone, PartialEq, Eq)]
pub struct NetworkMatch {
    /// Whether a blocking rule matched.
    pub matched: bool,
    /// Whether a rule carrying the important option matched.
    pub important: bool,
    /// A resource to load in place of the request, when a redirect rule matched.
    pub redirect: Option<String>,
    /// The matched exception rule, when one applied.
    pub exception: Option<String>,
    /// The matched blocking rule, when one applied.
    pub filter: Option<String>,
    /// The request URL with parameters removed, when a removeparam rule applied.
    pub rewritten_url: Option<String>,
}

impl NetworkMatch {
    /// The answer given when nothing matched, or when blocking is disabled.
    pub open spec fn spec_no_match() -> NetworkMatch {
        NetworkMatch {
            matched: false,
            important: false,
            redirect: None,
            exception: None,
            filter: None,
            rewritten_url: None,
        }
    }

    /// Builds the neutral, nothing-matched answer.
    pub fn no_match() -> (r: NetworkMatch)
        ensures
            r == NetworkMatch::spec_no_match(),
    {
        NetworkMatch {
            matched: false,
            important: false,
            redirect: None,
            exception: None,
            filter: None,
            rewritten_url: None,
        }
    }
}

impl NetworkMatch {
    /// The ghost value of this answer.
    pub open spec fn model(self) -> NetworkMatchModel {
        NetworkMatchModel {
            matched: self.matched,
            important: self.important,
            redirect: match self.redirect {
                Some(s) => Some(s@),
                None => None,
            },
            exception: match self.exception {
                Some(s) => Some(s@),
                None => None,
            },
            filter: match self.filter {
                Some(s) => Some(s@),
                None => None,
            },
            rewritten_url: match self.rewritten_url {
                Some(s) => Some(s@),
                None => None,
            },
        }
    }
}

/// The ghost value of the neutral, nothing-matched answer.
pub open spec fn no_match_model() -> NetworkMatchModel {
    NetworkMatchModel {
        matched: false,
        important: false,
        redirect: None,
        exception: None,
        filter: None,
        rewritten_url: None,
    }
}

/// What the engine answered about one page's cosmetic resources.
#[derive(Debug)]
pub struct CosmeticBlockerResult {
    /// Selectors to hide outright.
    pub hidden_selectors: Vec<String>,
    /// Selectors with their style declarations.
    pub style_selectors: Vec<(String, Vec<String>)>,
    /// A script to inject into the page, when the rules call for one.
    pub injected_script: Option<String>,
}

/// One reply from the filter-engine worker.
#[derive(Debug)]
pub enum BlockerResult {
    /// The reply to a network query.
    Network(NetworkMatch),
    /// The reply to a cosmetic query.
    Cosmetic(CosmeticBlockerResult),
}

/// The ghost value of one worker message.
pub enum WorkerMessage {
    /// Replace the engine with one compiled from these rule texts.
    Replace(Seq<Seq<char>>),
    /// A network query for this URL and referer.
    Network(Seq<char>, Seq<char>),
    /// A cosmetic query for this URL with these ids and classes.
    Cosmetic(Seq<char>, Seq<Seq<char>>, Seq<Seq<char>>),
}

/// The ghost value of a request message.
pub open spec fn message_model(kind: RequestKind) -> WorkerMessage {
    match kind {
        RequestKind::ReplaceEngine(f) => WorkerMessage::Replace(f.deep_view()),
        RequestKind::Url(n) => WorkerMessage::Network(n.url@, n.referer@),
        RequestKind::Cosmetic(c) => WorkerMessage::Cosmetic(
            c.url@,
            c.ids.deep_view(),
            c.classes.deep_view(),
        ),
    }
}

/// The rules the worker owns after processing one message.
pub open spec fn step_rules(rules: Seq<Seq<char>>, msg: WorkerMessage) -> Seq<Seq<char>> {
    match msg {
        WorkerMessage::Replace(f) => f,
        _ => rules,
    }
}

/// The rules the worker owns after processing a sequence of messages in order.
pub open spec fn rules_after(rules: Seq<Seq<char>>, msgs: Seq<WorkerMessage>) -> Seq<Seq<char>>
    decreases msgs.len(),
{
    if msgs.len() == 0 {
        rules
    } else {
        rules_after(step_rules(rules, msgs[0]), msgs.drop_first())
    }
}

/// What the worker owes for a cosmetic query when blocking is enabled: the
/// page's own resources, joined with the generic selectors unless a
/// generichide rule matched, and a non-empty injected script exactly when
/// the rules and the loaded resources owe the page one.
pub open spec fn cosmetic_reply_ok(
    rules: Seq<Seq<char>>,
    resources: Seq<ResourceModel>,
    url: Seq<char>,
    ids: Seq<Seq<char>>,
    classes: Seq<Seq<char>>,
    c: CosmeticBlockerResult,
) -> bool {
    let u = cosmetic_resources_of(rules, resources, url);
    let generic = if u.generichide {
        Set::<Seq<char>>::empty()
    } else {
        generic_hide_selectors_of(rules, classes.to_set(), ids.to_set(), u.exceptions)
    };
    &&& c.hidden_selectors.deep_view().to_set() == generic.union(u.hide)
    &&& style_map(pairs_view(c.style_selectors@)) == u.style
    &&& u.injected ==> (c.injected_script matches Some(s) && s@.len() > 0)
    &&& !u.injected ==> c.injected_script is None
}

/// The neutral cosmetic reply: nothing hidden, nothing styled, no script.
pub open spec fn cosmetic_reply_neutral(c: CosmeticBlockerResult) -> bool {
    &&& c.hidden_selectors@.len() == 0
    &&& c.style_selectors@.len() == 0
    &&& c.injected_script is None
}

/// The models of a resource list, in order.
pub open spec fn resources_view(rs: Seq<adblock::resources::Resource>) -> Seq<ResourceModel> {
    Seq::new(rs.len(), |i: int| resource_model(rs[i]))
}

/// The filter-engine worker: owns the one live compiled rule database,
/// holds the bundled scriptlet and redirect resources, and answers the
/// three query kinds.
pub struct Blocker {
    engine: adblock::Engine,
    resources: Vec<adblock::resources::Resource>,
    rules: Ghost<Seq<Seq<char>>>,
    loaded: Ghost<Seq<ResourceModel>>,
}

impl Blocker {
    /// The engine matches the rules and resources the worker believes it
    /// owns.
    pub closed spec fn wf(&self) -> bool {
        &&& engine::engine_rules(self.engine) == self.rules@
        &&& engine::engine_resources(self.engine) == self.loaded@
    }

    /// The rule list texts the live engine was compiled from.
    pub closed spec fn spec_rules(&self) -> Seq<Seq<char>> {
        self.rules@
    }

    /// The resources the worker holds for rebuilds.
    pub closed spec fn spec_held_resources(&self) -> Seq<ResourceModel> {
        resources_view(self.resources@)
    }

    /// The resources loaded into the live engine.
    pub closed spec fn spec_loaded_resources(&self) -> Seq<ResourceModel> {
        self.loaded@
    }

    /// A worker owning an engine with no rules and no resources yet, and
    /// holding the given resources for every later rebuild.
    pub fn new(resources: Vec<adblock::resources::Resource>) -> (r: Self)
        ensures
            r.wf(),
            r.spec_rules() == Seq::<Seq<char>>::empty(),
            r.spec_loaded_resources() == Seq::<ResourceModel>::empty(),
            r.spec_held_resources() == resources_view(resources@),
    {
        Blocker {
            engine: engine::engine_new(),
            resources,
            rules: Ghost(Seq::empty()),
            loaded: Ghost(Seq::empty()),
        }
    }

    /// Rebuilds the database from scratch out of the given rule list texts,
    /// loads the held resources into it, and replaces the owned instance.
    pub fn replace_engine(&mut self, filters: &Vec<String>)
        requires
            old(self).wf(),
        ensures
            final(self).wf(),
            final(self).spec_rules() == filters.deep_view(),
            final(self).spec_held_resources() == old(self).spec_held_resources(),
            final(self).spec_loaded_resources() == resource_store_of(
                old(self).spec_held_resources(),
            ),
    {
        let mut fs = engine::filter_set_new();
        let n = filters.len();
        assert(engine::filter_set_rules(fs) =~= filters.deep_view().take(0));
        for i in 0..n
            invariant
                n == filters.len(),
                engine::filter_set_rules(fs) == filters.deep_view().take(i as int),
        {
            engine::filter_set_add(&mut fs, filters[i].as_str());
            assert(engine::filter_set_rules(fs) =~= filters.deep_view().take(i + 1));
        }
        assert(filters.deep_view().take(n as int) =~= filters.deep_view());
        self.engine = engine::engine_from_filter_set(fs);
        let copies = engine::clone_resources(&self.resources);
        assert(resources_view(copies@) =~= resources_view(self.resources@));
        engine::use_resources(&mut self.engine, copies);
        self.rules = Ghost(filters.deep_view());
        self.loaded = Ghost(resource_store_of(resources_view(self.resources@)));
    }

    /// Processes one message. A replace message rebuilds the engine from
    /// exactly the given texts, loads the held resources into it, and gets
    /// no reply; only one database is ever live. Queries leave the engine as
    /// it is and are answered against the rules owned when the message is
    /// processed. When blocking is disabled, queries are answered with the
    /// neutral value without touching the database.
    pub fn handle_request(&mut self, kind: RequestKind, blocking_enabled: bool) -> (r: Option<
        BlockerResult,
    >)
        requires
            old(self).wf(),
        ensures
            final(self).wf(),
            final(self).spec_rules() == step_rules(old(self).spec_rules(), message_model(kind)),
            final(self).spec_held_resources() == old(self).spec_held_resources(),
            message_model(kind) is Replace ==> r is None && final(self).spec_loaded_resources()
                == resource_store_of(old(self).spec_held_resources()),
            !(message_model(kind) is Replace) ==> final(self).spec_loaded_resources() == old(
                self,
            ).spec_loaded_resources(),
            message_model(kind) matches WorkerMessage::Network(url, referer) ==> (r matches Some(
                BlockerResult::Network(m),
            ) && {
                &&& !blocking_enabled ==> m.model() == no_match_model()
                &&& blocking_enabled && !request_parses(url, referer) ==> m.model()
                    == no_match_model()
                &&& blocking_enabled && request_parses(url, referer) ==> m.model()
                    == network_match_of(
                    old(self).spec_rules(),
                    old(self).spec_loaded_resources(),
                    url,
                    referer,
                )
            }),
            message_model(kind) matches WorkerMessage::Cosmetic(url, ids, classes) ==> (r matches
                Some(BlockerResult::Cosmetic(c)) && {
                &&& !blocking_enabled ==> cosmetic_reply_neutral(c)
                &&& blocking_enabled ==> cosmetic_reply_ok(
                    old(self).spec_rules(),
                    old(self).spec_loaded_resources(),
                    url,
                    ids,
                    classes,
                    c,
                )
            }),
    {
        broadcast use lemma_seq_contains_after_push;

        match kind {
            RequestKind::ReplaceEngine(filters) => {
                self.replace_engine(&filters);
                None
            },
            RequestKind::Url(n) => {
                if !blocking_enabled {
                    return Some(BlockerResult::Network(NetworkMatch::no_match()));
                }
                match engine::request_new_other(n.url.as_str(), n.referer.as_str()) {
                    None => Some(BlockerResult::Network(NetworkMatch::no_match())),
                    Some(req) => Some(
                        BlockerResult::Network(engine::check_network_request(&self.engine, &req)),
                    ),
                }
            },
            RequestKind::Cosmetic(c) => {
                if !blocking_enabled {
                    return Some(
                        BlockerResult::Cosmetic(
                            CosmeticBlockerResult {
                                hidden_selectors: Vec::new(),
                                style_selectors: Vec::new(),
                                injected_script: None,
                            },
                        ),
                    );
                }
                let u = engine::url_cosmetic_resources(&self.engine, c.url.as_str());
                let mut hidden: Vec<String>;
                let ghost generic: Set<Seq<char>>;
                if !u.generichide {
                    hidden = engine::hidden_class_id_selectors(
                        &self.engine,
                        &c.classes,
                        &c.ids,
                        &u.exceptions,
                    );
                    proof {
                        generic = hidden.deep_view().to_set();
                    }
                } else {
                    hidden = Vec::new();
                    proof {
                        generic = Set::empty();
                    }
                    assert(hidden.deep_view().to_set() =~= Set::<Seq<char>>::empty());
                }
                let hs = u.hide_selectors;
                let m = hs.len();
                assert(hidden.deep_view().to_set() =~= generic.union(
                    hs.deep_view().take(0).to_set(),
                ));
                for i in 0..m
                    invariant
                        m == hs.len(),
                        hidden.deep_view().to_set() == generic.union(
                            hs.deep_view().take(i as int).to_set(),
                        ),
                {
                    let ghost before = hidden.deep_view();
                    hidden.push(hs[i].clone());
                    proof {
                        broadcast use lemma_seq_contains_after_push;

                        assert(hidden.deep_view() =~= before.push(hs@[i as int]@));
                        assert(hs.deep_view().take(i + 1) =~= hs.deep_view().take(i as int).push(
                            hs@[i as int]@,
                        ));
                        assert(before.push(hs@[i as int]@).to_set() =~= before.to_set().insert(
                            hs@[i as int]@,
                        ));
                        assert(hs.deep_view().take(i as int).push(hs@[i as int]@).to_set()
                            =~= hs.deep_view().take(i as int).to_set().insert(hs@[i as int]@));
                        assert(generic.union(hs.deep_view().take(i as int).to_set().insert(
                            hs@[i as int]@,
                        )) =~= generic.union(hs.deep_view().take(i as int).to_set()).insert(
                            hs@[i as int]@,
                        ));
                    }
                }
                assert(hs.deep_view().take(m as int) =~= hs.deep_view());
                let injected_script = if !u.injected_script.as_str().is_empty() {
                    Some(u.injected_script)
                } else {
                    None
                };
                Some(
                    BlockerResult::Cosmetic(
                        CosmeticBlockerResult {
                            hidden_selectors: hidden,
                            style_selectors: u.style_selectors,
                            injected_script,
                        },
                    ),
                )
            },
        }
    }
}

/// A replace processed before a query is visible to that query: once the
/// message at position `i` replaces the rules with `F`, every message up to
/// the next replace is processed while the worker owns exactly `F`. Together
/// with the contract of `Blocker::handle_request`, which answers each query
/// against the rules owned when it is dequeued, this pins the engine-swap
/// linearization point to the queue order.
pub proof fn lemma_engine_linearizability(
    rules0: Seq<Seq<char>>,
    msgs: Seq<WorkerMessage>,
    i: int,
    j: int,
)
    requires
        0 <= i < j <= msgs.len(),
        msgs[i] is Replace,
        forall|k: int| i < k < j ==> !((#[trigger] msgs[k]) is Replace),
    ensures
        rules_after(rules0, msgs.take(j)) == msgs[i]->Replace_0,
    decreases j,
{
    if j == i + 1 {
        lemma_rules_after_snoc(rules0, msgs.take(i), msgs[i]);
        assert(msgs.take(j) =~= msgs.take(i).push(msgs[i]));
    } else {
        lemma_engine_linearizability(rules0, msgs, i, j - 1);
        lemma_rules_after_snoc(rules0, msgs.take(j - 1), msgs[j - 1]);
        assert(msgs.take(j) =~= msgs.take(j - 1).push(msgs[j - 1]));
    }
}

/// Processing one more message steps the rules once.
pub proof fn lemma_rules_after_snoc(rules0: Seq<Seq<char>>, msgs: Seq<WorkerMessage>, m: WorkerMessage)
    ensures
        rules_after(rules0, msgs.push(m)) == step_rules(rules_after(rules0, msgs), m),
    decreases msgs.len(),
{
    if msgs.len() == 0 {
        reveal_with_fuel(rules_after, 2);
        assert(msgs.push(m)[0] == m);
        assert(msgs.push(m).drop_first() =~= Seq::<WorkerMessage>::empty());
    } else {
        assert(msgs.push(m)[0] == msgs[0]);
        assert(msgs.push(m).drop_first() =~= msgs.drop_first().push(m));
        lemma_rules_after_snoc(step_rules(rules0, msgs[0]), msgs.drop_first(), m);
    }
}

} // verus!
