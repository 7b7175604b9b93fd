use vstd::prelude::*;
use crate::blocker::NetworkMatch;

verus! {

// ---------------------------------------------------------------------------
// Declared types of the adblock crate. Verus treats their values as opaque;
// the names below give their contents a mathematical stand-in.
// ---------------------------------------------------------------------------

#[verifier::external_type_specification]
#[verifier::external_body]
pub struct ExEngine(adblock::Engine);

#[verifier::external_type_specification]
#[verifier::external_body]
pub struct ExFilterSet(adblock::lists::FilterSet);

#[verifier::external_type_specification]
#[verifier::external_body]
pub struct ExRequest(adblock::request::Request);

#[verifier::external_type_specification]
#[verifier::external_body]
pub struct ExResource(adblock::resources::Resource);

/// The ghost value of one scriptlet or redirect resource: the fields the
/// resource storage reads, as plain values.
pub struct ResourceModel {
    /// The primary name.
    pub name: Seq<char>,
    /// The secondary names.
    pub aliases: Seq<Seq<char>>,
    /// The kind tag: the MIME type's serialized name, or the template tag.
    pub kind: Seq<char>,
    /// The base64-encoded body.
    pub content: Seq<char>,
    /// Names of resources this one depends on.
    pub dependencies: Seq<Seq<char>>,
    /// The permission bits gating scriptlet injection.
    pub permission: u8,
}

/// The ghost value of a resource.
pub uninterp spec fn resource_model(r: adblock::resources::Resource) -> ResourceModel;

/// The resources an engine's storage holds.
pub uninterp spec fn engine_resources(e: adblock::Engine) -> Seq<ResourceModel>;

/// What adblock's resource storage keeps of a resource list: entries the
/// storage rejects — undecodable content, unsupported kinds, or names that
/// clash with an earlier entry — are dropped, the rest kept in order.
pub uninterp spec fn resource_store_of(rs: Seq<ResourceModel>) -> Seq<ResourceModel>;

/// The rule list texts a filter set holds, in the order they were added.
pub uninterp spec fn filter_set_rules(fs: adblock::lists::FilterSet) -> Seq<Seq<char>>;

/// The rule list texts an engine was compiled from.
pub uninterp spec fn engine_rules(e: adblock::Engine) -> Seq<Seq<char>>;

/// The request URL and referer a parsed request was built from.
pub uninterp spec fn request_model(r: adblock::request::Request) -> (Seq<char>, Seq<char>);

/// Whether building a request from these URLs succeeds; parsing depends on
/// the URLs alone.
pub uninterp spec fn request_parses(url: Seq<char>, referer: Seq<char>) -> bool;

/// The ghost shape of a network match answer.
pub struct NetworkMatchModel {
    pub matched: bool,
    pub important: bool,
    pub redirect: Option<Seq<char>>,
    pub exception: Option<Seq<char>>,
    pub filter: Option<Seq<char>>,
    pub rewritten_url: Option<Seq<char>>,
}

/// The engine's answer to a parsed network request, as a function of the
/// rules it was compiled from, the resources its storage holds (a redirect
/// resolves only through a loaded resource), and the request's URLs.
pub uninterp spec fn network_match_of(
    rules: Seq<Seq<char>>,
    resources: Seq<ResourceModel>,
    url: Seq<char>,
    referer: Seq<char>,
) -> NetworkMatchModel;

/// The ghost shape of a page's URL-specific cosmetic resources.
pub struct CosmeticModel {
    /// Selectors to hide on this page.
    pub hide: Set<Seq<char>>,
    /// Selectors mapped to their non-hide style declarations.
    pub style: Map<Seq<char>, Seq<Seq<char>>>,
    /// Class and id selectors that generic rules must not touch.
    pub exceptions: Set<Seq<char>>,
    /// Whether any scriptlet is owed to the page, which takes a matching
    /// loaded resource with sufficient permission. The crate assembles the
    /// script text in a hash-walk order, so only its presence is named.
    pub injected: bool,
    /// Whether a generichide exception rule matched the page.
    pub generichide: bool,
}

/// The URL-specific cosmetic resources, as a function of the rules, the
/// resources the engine's storage holds, and the page URL.
pub uninterp spec fn cosmetic_resources_of(
    rules: Seq<Seq<char>>,
    resources: Seq<ResourceModel>,
    url: Seq<char>,
) -> CosmeticModel;

/// The generic hide selectors owed to the given classes and ids, as a
/// function of the rules and the (unordered) queried sets.
pub uninterp spec fn generic_hide_selectors_of(
    rules: Seq<Seq<char>>,
    classes: Set<Seq<char>>,
    ids: Set<Seq<char>>,
    exceptions: Set<Seq<char>>,
) -> Set<Seq<char>>;

// ---------------------------------------------------------------------------
// Spec helpers used by the wrapper contracts.
// ---------------------------------------------------------------------------

/// The views of a list of selector/declarations pairs.
pub open spec fn pairs_view(v: Seq<(String, Vec<String>)>) -> Seq<(Seq<char>, Seq<Seq<char>>)> {
    Seq::new(v.len(), |i: int| (v[i].0@, v[i].1.deep_view()))
}

/// The map a list of selector/declarations pairs denotes.
pub open spec fn style_map(pairs: Seq<(Seq<char>, Seq<Seq<char>>)>) -> Map<Seq<char>, Seq<Seq<char>>>
    decreases pairs.len(),
{
    if pairs.len() == 0 {
        Map::empty()
    } else {
        style_map(pairs.drop_last()).insert(pairs.last().0, pairs.last().1)
    }
}

// ---------------------------------------------------------------------------
// Trusted wrappers around the adblock crate.
// ---------------------------------------------------------------------------

/// Relies on adblock::lists::FilterSet::new with debug on, so matched rule
/// texts are reported: a fresh set holds no rules.
#[verifier::external_body]
pub(crate) fn filter_set_new() -> (r: adblock::lists::FilterSet)
    ensures
        filter_set_rules(r) == Seq::<Seq<char>>::empty(),
{
    adblock::lists::FilterSet::new(true)
}

/// Relies on adblock::lists::FilterSet::add_filter_list: adds the rules of
/// one more list text to the set.
#[verifier::external_body]
pub(crate) fn filter_set_add(fs: &mut adblock::lists::FilterSet, list: &str)
    ensures
        filter_set_rules(*final(fs)) == filter_set_rules(*old(fs)).push(list@),
{
    fs.add_filter_list(list, adblock::lists::ParseOptions::default());
}

/// Relies on adblock::Engine::from_filter_set: compiles exactly the set's
/// rules, with an empty resource storage; the optimize flag changes
/// representation, not answers.
#[verifier::external_body]
pub(crate) fn engine_from_filter_set(fs: adblock::lists::FilterSet) -> (r: adblock::Engine)
    ensures
        engine_rules(r) == filter_set_rules(fs),
        engine_resources(r) == Seq::<ResourceModel>::empty(),
{
    adblock::Engine::from_filter_set(fs, true)
}

/// Relies on adblock::Engine::new: an engine holding no rules and no
/// resources.
#[verifier::external_body]
pub(crate) fn engine_new() -> (r: adblock::Engine)
    ensures
        engine_rules(r) == Seq::<Seq<char>>::empty(),
        engine_resources(r) == Seq::<ResourceModel>::empty(),
{
    adblock::Engine::new(true)
}

/// Relies on adblock::Engine::use_resources: replaces the engine's resource
/// storage with what the storage keeps of the given list, leaving the
/// compiled rules alone.
#[verifier::external_body]
pub(crate) fn use_resources(e: &mut adblock::Engine, rs: Vec<adblock::resources::Resource>)
    ensures
        engine_rules(*final(e)) == engine_rules(*old(e)),
        engine_resources(*final(e)) == resource_store_of(
            Seq::new(rs@.len(), |i: int| resource_model(rs@[i])),
        ),
{
    e.use_resources(rs);
}

/// Relies on the derived Clone of adblock::resources::Resource: a clone
/// carries the same fields, so the same ghost value.
#[verifier::external_body]
pub(crate) fn clone_resources(rs: &Vec<adblock::resources::Resource>) -> (r: Vec<
    adblock::resources::Resource,
>)
    ensures
        r@.len() == rs@.len(),
        forall|i: int|
            0 <= i < rs@.len() ==> resource_model(r@[i]) == resource_model(rs@[i]),
{
    rs.clone()
}

/// Relies on adblock::request::Request::new with resource type "other" and
/// the given URLs: success and the parsed value depend on the URLs alone.
#[verifier::external_body]
pub(crate) fn request_new_other(url: &str, referer: &str) -> (r: Option<adblock::request::Request>)
    ensures
        r is Some <==> request_parses(url@, referer@),
        r matches Some(req) ==> request_model(req) == (url@, referer@),
{
    adblock::request::Request::new(url, referer, "other").ok()
}

/// Relies on adblock::Engine::check_network_request: the answer is a
/// function of the engine's rules, its loaded resources, and the request.
#[verifier::external_body]
pub(crate) fn check_network_request(engine: &adblock::Engine, request: &adblock::request::Request) -> (r: NetworkMatch)
    ensures
        r.model() == network_match_of(
            engine_rules(*engine),
            engine_resources(*engine),
            request_model(*request).0,
            request_model(*request).1,
        ),
{
    let b = engine.check_network_request(request);
    NetworkMatch {
        matched: b.matched,
        important: b.important,
        redirect: b.redirect,
        exception: b.exception,
        filter: b.filter,
        rewritten_url: b.rewritten_url,
    }
}

/// What one call of url_cosmetic_resources hands back, with the crate's hash
/// containers laid out as lists (their walk order is arbitrary, so the
/// contracts speak of the contents only).
pub struct UrlCosmetics {
    pub hide_selectors: Vec<String>,
    pub style_selectors: Vec<(String, Vec<String>)>,
    pub exceptions: Vec<String>,
    pub injected_script: String,
    pub generichide: bool,
}

/// Relies on adblock::Engine::url_cosmetic_resources: which resources come
/// back is a function of the rules, the loaded resources, and the page URL;
/// only the order in which the hash containers are walked is left open.
#[verifier::external_body]
pub(crate) fn url_cosmetic_resources(engine: &adblock::Engine, url: &str) -> (r: UrlCosmetics)
    ensures
        r.hide_selectors.deep_view().to_set() == cosmetic_resources_of(engine_rules(*engine), engine_resources(*engine), url@).hide,
        style_map(pairs_view(r.style_selectors@)) == cosmetic_resources_of(engine_rules(*engine), engine_resources(*engine), url@).style,
        r.exceptions.deep_view().to_set() == cosmetic_resources_of(engine_rules(*engine), engine_resources(*engine), url@).exceptions,
        r.injected_script@.len() > 0 <==> cosmetic_resources_of(engine_rules(*engine), engine_resources(*engine), url@).injected,
        r.generichide == cosmetic_resources_of(engine_rules(*engine), engine_resources(*engine), url@).generichide,
{
    let u = engine.url_cosmetic_resources(url);
    UrlCosmetics {
        hide_selectors: u.hide_selectors.into_iter().collect(),
        style_selectors: u.style_selectors.into_iter().collect(),
        exceptions: u.exceptions.into_iter().collect(),
        injected_script: u.injected_script,
        generichide: u.generichide,
    }
}

/// Relies on adblock::Engine::hidden_class_id_selectors: which selectors come
/// back is a function of the rules and the queried sets.
#[verifier::external_body]
pub(crate) fn hidden_class_id_selectors(
    engine: &adblock::Engine,
    classes: &Vec<String>,
    ids: &Vec<String>,
    exceptions: &Vec<String>,
) -> (r: Vec<String>)
    ensures
        r.deep_view().to_set() == generic_hide_selectors_of(
            engine_rules(*engine),
            classes.deep_view().to_set(),
            ids.deep_view().to_set(),
            exceptions.deep_view().to_set(),
        ),
{
    let ex: std::collections::HashSet<String> = exceptions.iter().cloned().collect();
    engine.hidden_class_id_selectors(classes, ids, &ex)
}

} // verus!
