use vstd::prelude::*;
use vstd::string::StringExecFns;
use crate::exclusions::LocalExclusionStore;
use crate::textutil::{str_eq, to_char_vec};
use crate::digest::push_char;

pub mod ca;
pub mod filter;
pub mod network;
pub mod updater;

use ca::{Ca, CaError};
use filter::Filter;
use network::{NetworkConfig, NetworkConfigError};

verus! {

/// What can go wrong around the configuration.
#[derive(Debug, Clone)]
pub enum ConfigurationError {
    /// A network setting was rejected.
    NetworkConfigError(NetworkConfigError),
    /// The CA material was rejected.
    CaError(CaError),
    /// The configuration file did not deserialize.
    DeserializeError(String),
    /// A needed directory was not found.
    DirectoryNotFound,
    /// The file system failed.
    FileSystemError(String),
    /// The default filters could not be retrieved.
    UnableToRetrieveDefaultFilters(String),
    /// A filter body was not UTF-8.
    UnableToDecodeFilterbytes,
    /// PEM data did not decode.
    UnableToDecodePem,
    /// A filter could not be fetched or stored.
    FilterError(String),
}

/// The error the embedding application sees.
#[derive(Debug, Clone)]
pub enum PrivaxyError {
    /// A configuration step failed.
    ConfigurationError(ConfigurationError),
}

// ---------------------------------------------------------------------------
// Line splitting, trimming, and deduplication.
// ---------------------------------------------------------------------------

/// ASCII whitespace trimmed off configuration lines.
pub open spec fn is_trim_ws(c: char) -> bool {
    c == ' ' || c == '\t' || c == '\r' || c == '\u{b}' || c == '\u{c}'
}

/// Length of the leading whitespace run.
pub open spec fn lead_ws(s: Seq<char>) -> int
    decreases s.len(),
{
    if s.len() == 0 || !is_trim_ws(s[0]) {
        0
    } else {
        1 + lead_ws(s.drop_first())
    }
}

/// Length of the trailing whitespace run.
pub open spec fn trail_ws(s: Seq<char>) -> int
    decreases s.len(),
{
    if s.len() == 0 || !is_trim_ws(s.last()) {
        0
    } else {
        1 + trail_ws(s.drop_last())
    }
}

/// The line with leading and trailing ASCII whitespace removed.
pub open spec fn trim(s: Seq<char>) -> Seq<char> {
    if lead_ws(s) == s.len() {
        Seq::empty()
    } else {
        s.subrange(lead_ws(s), s.len() - trail_ws(s))
    }
}

/// A cut with the shape of the leading whitespace run is that run.
proof fn lemma_lead_ws_is(s: Seq<char>, n: int)
    requires
        0 <= n <= s.len(),
        forall|k: int| 0 <= k < n ==> is_trim_ws(s[k]),
        n < s.len() ==> !is_trim_ws(s[n]),
    ensures
        lead_ws(s) == n,
    decreases s.len(),
{
    if s.len() == 0 || !is_trim_ws(s[0]) {
    } else {
        assert(n > 0);
        lemma_lead_ws_is(s.drop_first(), n - 1);
    }
}

/// A cut with the shape of the trailing whitespace run is that run.
proof fn lemma_trail_ws_is(s: Seq<char>, n: int)
    requires
        0 <= n <= s.len(),
        forall|k: int| s.len() - n <= k < s.len() ==> is_trim_ws(s[k]),
        n < s.len() ==> !is_trim_ws(s[s.len() - n - 1]),
    ensures
        trail_ws(s) == n,
    decreases s.len(),
{
    if s.len() == 0 || !is_trim_ws(s.last()) {
        assert(n == 0);
    } else {
        assert(n > 0);
        lemma_trail_ws_is(s.drop_last(), n - 1);
    }
}

/// Trims a line.
fn trim_chars(v: &Vec<char>) -> (r: Vec<char>)
    ensures
        r@ == trim(v@),
{
    let n = v.len();
    let mut a: usize = 0;
    while a < n && is_trim_ws_exec(v[a])
        invariant
            n == v.len(),
            a <= n,
            forall|k: int| 0 <= k < a ==> is_trim_ws(v@[k]),
        decreases n - a,
    {
        a = a + 1;
    }
    if a == n {
        proof {
            lemma_lead_ws_is(v@, n as int);
        }
        return Vec::new();
    }
    proof {
        lemma_lead_ws_is(v@, a as int);
    }
    let mut b = n;
    while b > a + 1 && is_trim_ws_exec(v[b - 1])
        invariant
            n == v.len(),
            a < b <= n,
            forall|k: int| b <= k < n ==> is_trim_ws(v@[k]),
            !is_trim_ws(v@[a as int]),
        decreases b,
    {
        b = b - 1;
    }
    proof {
        // The loop stops either on a non-whitespace character or at a + 1,
        // where the character is the non-whitespace one at `a`.
        if b == a + 1 {
            assert(v@[b - 1] == v@[a as int]);
        }
        lemma_trail_ws_is(v@, (n - b) as int);
    }
    let mut out: Vec<char> = Vec::new();
    let mut i = a;
    while i < b
        invariant
            a <= i <= b <= n,
            n == v.len(),
            out@ =~= v@.subrange(a as int, i as int),
        decreases b - i,
    {
        out.push(v[i]);
        i = i + 1;
        assert(out@ =~= v@.subrange(a as int, i as int));
    }
    out
}

/// Whitespace test.
fn is_trim_ws_exec(c: char) -> (r: bool)
    ensures
        r == is_trim_ws(c),
{
    c == ' ' || c == '\t' || c == '\r' || c == '\u{b}' || c == '\u{c}'
}

/// Length of the leading newline-free run.
pub open spec fn not_nl_len(s: Seq<char>) -> int
    decreases s.len(),
{
    if s.len() == 0 || s[0] == '\n' {
        0
    } else {
        1 + not_nl_len(s.drop_first())
    }
}

/// The newline-separated lines of a text.
pub open spec fn split_nl(s: Seq<char>) -> Seq<Seq<char>>
    decreases s.len(),
    via split_nl_decreases
{
    if s.len() == 0 {
        Seq::empty()
    } else {
        let k = not_nl_len(s);
        if k == s.len() {
            seq![s]
        } else {
            seq![s.take(k)] + split_nl(s.skip(k + 1))
        }
    }
}

#[via_fn]
proof fn split_nl_decreases(s: Seq<char>) {
    lemma_not_nl_len(s);
}

/// The leading run holds no newline and ends at one or at the end.
proof fn lemma_not_nl_len(s: Seq<char>)
    ensures
        0 <= not_nl_len(s) <= s.len(),
        forall|k: int| 0 <= k < not_nl_len(s) ==> s[k] != '\n',
        not_nl_len(s) < s.len() ==> s[not_nl_len(s)] == '\n',
    decreases s.len(),
{
    if s.len() == 0 || s[0] == '\n' {
    } else {
        lemma_not_nl_len(s.drop_first());
        assert forall|k: int| 0 <= k < not_nl_len(s) implies s[k] != '\n' by {
            if k > 0 {
                assert(s.drop_first()[k - 1] == s[k]);
            }
        }
        if not_nl_len(s) < s.len() {
            assert(s.drop_first()[not_nl_len(s) - 1] == s[not_nl_len(s)]);
        }
    }
}

/// A cut with the shape of the leading newline-free run is that run.
proof fn lemma_not_nl_len_is(s: Seq<char>, n: int)
    requires
        0 <= n <= s.len(),
        forall|k: int| 0 <= k < n ==> s[k] != '\n',
        n < s.len() ==> s[n] == '\n',
    ensures
        not_nl_len(s) == n,
    decreases s.len(),
{
    if s.len() == 0 || s[0] == '\n' {
    } else {
        assert(n > 0);
        lemma_not_nl_len_is(s.drop_first(), n - 1);
    }
}

/// The lines, trimmed, with empties dropped, in order.
pub open spec fn clean_lines(ls: Seq<Seq<char>>) -> Seq<Seq<char>>
    decreases ls.len(),
{
    if ls.len() == 0 {
        Seq::empty()
    } else {
        let rest = clean_lines(ls.drop_first());
        if trim(ls[0]).len() > 0 {
            seq![trim(ls[0])] + rest
        } else {
            rest
        }
    }
}

/// The configuration's reading of a line-oriented value: lines trimmed of
/// ASCII whitespace, empty lines dropped, order kept.
pub open spec fn spec_deserialize_lines(s: Seq<char>) -> Seq<Seq<char>> {
    clean_lines(split_nl(s))
}

/// A string built from characters.
fn string_of_chars(v: &Vec<char>) -> (r: String)
    ensures
        r@ == v@,
{
    let n = v.len();
    let mut s = String::new();
    for i in 0..n
        invariant
            n == v.len(),
            s@ =~= v@.take(i as int),
    {
        push_char(&mut s, v[i]);
        assert(s@ =~= v@.take(i + 1));
    }
    assert(v@.take(n as int) =~= v@);
    s
}

/// Splits a text into trimmed, non-empty lines.
pub fn deserialize_lines(text: &str) -> (r: Vec<String>)
    ensures
        r.deep_view() == spec_deserialize_lines(text@),
{
    let chars = to_char_vec(text);
    let n = chars.len();
    let mut out: Vec<String> = Vec::new();
    let mut i: usize = 0;
    proof {
        assert(chars@.skip(0) =~= chars@);
        assert(out.deep_view() + clean_lines(split_nl(chars@.skip(0))) =~~= clean_lines(
            split_nl(chars@),
        ));
    }
    while i < n
        invariant
            n == chars.len(),
            chars@ == text@,
            i <= n,
            out.deep_view() + clean_lines(split_nl(chars@.skip(i as int))) =~~= clean_lines(
                split_nl(chars@),
            ),
        decreases n - i,
    {
        let mut j = i;
        let mut line: Vec<char> = Vec::new();
        while j < n && chars[j] != '\n'
            invariant
                n == chars.len(),
                i <= j <= n,
                line@ =~= chars@.subrange(i as int, j as int),
                forall|k: int| i <= k < j ==> chars@[k] != '\n',
            decreases n - j,
        {
            line.push(chars[j]);
            j = j + 1;
            assert(line@ =~= chars@.subrange(i as int, j as int));
        }
        proof {
            let rest = chars@.skip(i as int);
            lemma_not_nl_len_is(rest, j - i);
            assert(rest.take(j - i) =~= chars@.subrange(i as int, j as int));
        }
        let trimmed = trim_chars(&line);
        let ghost before = out.deep_view();
        if trimmed.len() > 0 {
            out.push(string_of_chars(&trimmed));
            proof {
                assert(out.deep_view() =~~= before.push(trim(line@)));
            }
        }
        proof {
            let rest = chars@.skip(i as int);
            if j == n {
                assert(split_nl(rest) =~~= seq![rest]);
                assert(rest =~= line@);
                assert(clean_lines(split_nl(rest)) =~~= if trim(line@).len() > 0 {
                    seq![trim(line@)]
                } else {
                    Seq::<Seq<char>>::empty()
                }) by {
                    reveal_with_fuel(clean_lines, 2);
                    assert(seq![rest].drop_first() =~~= Seq::<Seq<char>>::empty());
                    assert(seq![rest][0] == line@);
                }
                assert(chars@.skip(n as int) =~= Seq::<char>::empty());
                assert(out.deep_view() + clean_lines(split_nl(chars@.skip(n as int))) =~~= out.deep_view());
            } else {
                assert(rest.skip(j - i + 1) =~= chars@.skip(j + 1));
                assert(split_nl(rest) =~~= seq![line@] + split_nl(chars@.skip(j + 1)));
                assert((seq![line@] + split_nl(chars@.skip(j + 1)))[0] == line@);
                assert((seq![line@] + split_nl(chars@.skip(j + 1))).drop_first() =~~= split_nl(
                    chars@.skip(j + 1),
                ));
            }
        }
        if j == n {
            i = n;
        } else {
            i = j + 1;
        }
    }
    proof {
        assert(chars@.skip(n as int) =~= Seq::<char>::empty());
        assert(out.deep_view() + clean_lines(split_nl(chars@.skip(n as int))) =~~= out.deep_view());
    }
    out
}

/// Appends the line unless present.
pub open spec fn insert_unique_line(s: Seq<Seq<char>>, x: Seq<char>) -> Seq<Seq<char>> {
    if s.contains(x) {
        s
    } else {
        s.push(x)
    }
}

/// First-occurrence deduplication.
pub open spec fn dedup_lines(acc: Seq<Seq<char>>, ls: Seq<Seq<char>>) -> Seq<Seq<char>>
    decreases ls.len(),
{
    if ls.len() == 0 {
        acc
    } else {
        dedup_lines(insert_unique_line(acc, ls[0]), ls.drop_first())
    }
}

/// Deduplicates lines, keeping first occurrences in order.
fn dedup_strings(ls: &Vec<String>) -> (r: Vec<String>)
    ensures
        r.deep_view() == dedup_lines(Seq::empty(), ls.deep_view()),
{
    let n = ls.len();
    let mut out: Vec<String> = Vec::new();
    proof {
        assert(out.deep_view() =~~= Seq::<Seq<char>>::empty());
        assert(ls.deep_view().skip(0) =~~= ls.deep_view());
    }
    for i in 0..n
        invariant
            n == ls.len(),
            dedup_lines(Seq::empty(), ls.deep_view()) == dedup_lines(
                out.deep_view(),
                ls.deep_view().skip(i as int),
            ),
    {
        proof {
            assert(ls.deep_view().skip(i as int)[0] == ls.deep_view()[i as int]);
            assert(ls.deep_view().skip(i as int).drop_first() =~~= ls.deep_view().skip(i + 1));
        }
        let mut found = false;
        let m = out.len();
        for k in 0..m
            invariant
                m == out.len(),
                found ==> out.deep_view().contains(ls.deep_view()[i as int]),
                !found ==> forall|k2: int|
                    0 <= k2 < k ==> out.deep_view()[k2] != ls.deep_view()[i as int],
                i < n == ls.len(),
        {
            if str_eq(out[k].as_str(), ls[i].as_str()) {
                proof {
                    assert(out.deep_view()[k as int] == ls.deep_view()[i as int]);
                }
                found = true;
            }
        }
        let ghost before = out.deep_view();
        if !found {
            proof {
                assert(!before.contains(ls.deep_view()[i as int]));
            }
            out.push(ls[i].clone());
            proof {
                assert(out.deep_view() =~~= before.push(ls.deep_view()[i as int]));
            }
        } else {
            proof {
                assert(insert_unique_line(before, ls.deep_view()[i as int]) =~~= before);
            }
        }
    }
    proof {
        assert(ls.deep_view().skip(n as int) =~~= Seq::<Seq<char>>::empty());
    }
    out
}

// ---------------------------------------------------------------------------
// The configuration itself.
// ---------------------------------------------------------------------------

/// The whole persisted configuration.
#[derive(Debug, Clone)]
pub struct Configuration {
    /// Host substrings excluded from filtering, duplicates removed.
    pub exclusions: Vec<String>,
    /// Raw custom filter rules, one per line.
    pub custom_filters: Vec<String>,
    /// The CA material.
    pub ca: Ca,
    /// The listeners.
    pub network: NetworkConfig,
    /// The filter lists.
    pub filters: Vec<Filter>,
}

/// The first filter with this file name, if any.
pub open spec fn find_filter(fs: Seq<Filter>, file_name: Seq<char>) -> Option<int>
    decreases fs.len(),
{
    if fs.len() == 0 {
        None
    } else if fs[0].file_name@ == file_name {
        Some(0)
    } else {
        match find_filter(fs.drop_first(), file_name) {
            Some(i) => Some(i + 1),
            None => None,
        }
    }
}

impl Configuration {
    /// Replaces the custom rules with the trimmed, non-empty lines of the
    /// given text. The caller persists the configuration afterwards.
    pub fn set_custom_filters(&mut self, custom_filters: &str)
        ensures
            final(self).custom_filters.deep_view() == spec_deserialize_lines(custom_filters@),
            final(self).exclusions == old(self).exclusions,
            final(self).ca == old(self).ca,
            final(self).network == old(self).network,
            final(self).filters == old(self).filters,
    {
        self.custom_filters = deserialize_lines(custom_filters);
    }

    /// Replaces the exclusions with the trimmed, non-empty, deduplicated
    /// lines of the given text, and publishes the same snapshot to the
    /// store the data plane reads. The caller persists the configuration.
    pub fn set_exclusions(&mut self, exclusions: &str, store: &mut LocalExclusionStore)
        ensures
            final(self).exclusions.deep_view() == dedup_lines(
                Seq::empty(),
                spec_deserialize_lines(exclusions@),
            ),
            final(store).spec_patterns() == final(self).exclusions.deep_view(),
            final(self).custom_filters == old(self).custom_filters,
            final(self).ca == old(self).ca,
            final(self).network == old(self).network,
            final(self).filters == old(self).filters,
    {
        let lines = deserialize_lines(exclusions);
        let deduped = dedup_strings(&lines);
        let snapshot = clone_string_vec(&deduped);
        self.exclusions = deduped;
        store.replace_exclusions(snapshot);
    }

    /// Enables or disables the first filter carrying this file name; a name
    /// no filter carries changes nothing. The caller persists the
    /// configuration.
    pub fn set_filter_enabled_status(&mut self, filter_file_name: &str, enabled: bool)
        ensures
            final(self).exclusions == old(self).exclusions,
            final(self).custom_filters == old(self).custom_filters,
            final(self).ca == old(self).ca,
            final(self).network == old(self).network,
            match find_filter(old(self).filters@, filter_file_name@) {
                Some(i) => final(self).filters@ == old(self).filters@.update(
                    i,
                    Filter { enabled, ..old(self).filters@[i] },
                ),
                None => final(self).filters == old(self).filters,
            },
    {
        let n = self.filters.len();
        let mut i: usize = 0;
        while i < n
            invariant
                n == self.filters.len(),
                i <= n,
                self == old(self),
                forall|k: int| 0 <= k < i ==> (#[trigger] self.filters@[k]).file_name@ != filter_file_name@,
            decreases n - i,
        {
            if str_eq(self.filters[i].file_name.as_str(), filter_file_name) {
                proof {
                    lemma_find_filter_at(self.filters@, filter_file_name@, i as int);
                }
                let title = self.filters[i].title.clone();
                let group = self.filters[i].group;
                let file_name = self.filters[i].file_name.clone();
                let url = self.filters[i].url.clone();
                self.filters.set(i, Filter { enabled, title, group, file_name, url });
                return ;
            }
            i = i + 1;
        }
        proof {
            lemma_find_filter_none(self.filters@, filter_file_name@);
        }
    }

    /// The enabled filters, copied in order.
    pub fn get_enabled_filters(&self) -> (r: Vec<Filter>)
        ensures
            r@ == self.filters@.filter(|f: Filter| f.enabled),
    {
        let n = self.filters.len();
        let mut out: Vec<Filter> = Vec::new();
        proof {
            assert(self.filters@.take(0).filter(|f: Filter| f.enabled) =~= Seq::<Filter>::empty());
        }
        for i in 0..n
            invariant
                n == self.filters.len(),
                out@ =~= self.filters@.take(i as int).filter(|f: Filter| f.enabled),
        {
            proof {
                reveal_with_fuel(Seq::filter, 2);
                assert(self.filters@.take(i + 1).drop_last() =~= self.filters@.take(i as int));
                assert(self.filters@.take(i + 1).last() == self.filters@[i as int]);
            }
            if self.filters[i].enabled {
                out.push(self.filters[i].duplicate());
            }
        }
        proof {
            assert(self.filters@.take(n as int) =~= self.filters@);
        }
        out
    }

    /// Adds a filter whose first fetch has been attempted: a fetched filter
    /// joins the list; one that could not be fetched is disabled and
    /// rejected. The caller persists the configuration on success.
    pub fn add_filter(&mut self, filter: &mut Filter, fetch_succeeded: bool) -> (r: Result<
        (),
        ConfigurationError,
    >)
        ensures
            final(self).exclusions == old(self).exclusions,
            final(self).custom_filters == old(self).custom_filters,
            final(self).ca == old(self).ca,
            final(self).network == old(self).network,
            fetch_succeeded ==> r is Ok && *final(filter) == *old(filter) && final(self).filters@
                == old(self).filters@.push(*old(filter)),
            !fetch_succeeded ==> (r matches Err(ConfigurationError::FilterError(_))) && *final(filter) == (Filter { enabled: false, ..*old(filter) }) && final(self).filters == old(
                self,
            ).filters,
    {
        if fetch_succeeded {
            self.filters.push(filter.duplicate());
            Ok(())
        } else {
            filter.enabled = false;
            Err(ConfigurationError::FilterError(String::from_str("Unable to add filter")))
        }
    }

    /// Replaces the network settings after validating them; invalid
    /// settings leave the configuration as it was and carry the
    /// validation's own error out.
    pub fn set_network_settings(&mut self, network_config: &NetworkConfig) -> (r: Result<
        (),
        ConfigurationError,
    >)
        ensures
            final(self).exclusions == old(self).exclusions,
            final(self).custom_filters == old(self).custom_filters,
            final(self).ca == old(self).ca,
            final(self).filters == old(self).filters,
            r is Ok <==> network_config.proxy_port != 0 && network_config.web_port != 0
                && network_config.proxy_port != network_config.web_port && network::is_ipv4(
                network_config.bind_addr@,
            ),
            r is Ok ==> final(self).network == *network_config,
            r is Err ==> final(self).network == old(self).network,
    {
        match network_config.validate() {
            Ok(()) => {
                self.network = network_config.duplicate();
                Ok(())
            },
            Err(e) => Err(e),
        }
    }

    /// Replaces the CA settings; the caller reports whether the material
    /// validated (reading any configured files first), and invalid material
    /// leaves the configuration as it was.
    pub fn set_ca_settings(&mut self, ca_config: &Ca, validated: bool) -> (r: Result<
        (),
        ConfigurationError,
    >)
        ensures
            final(self).exclusions == old(self).exclusions,
            final(self).custom_filters == old(self).custom_filters,
            final(self).network == old(self).network,
            final(self).filters == old(self).filters,
            validated ==> r is Ok && final(self).ca == *ca_config,
            !validated ==> r is Err && final(self).ca == old(self).ca,
    {
        if validated {
            self.ca = ca_config.duplicate();
            Ok(())
        } else {
            Err(ConfigurationError::CaError(CaError::PrivateKeyMismatch))
        }
    }
}

/// Finding the key at an index where it first occurs.
proof fn lemma_find_filter_at(fs: Seq<Filter>, name: Seq<char>, i: int)
    requires
        0 <= i < fs.len(),
        fs[i].file_name@ == name,
        forall|k: int| 0 <= k < i ==> (#[trigger] fs[k]).file_name@ != name,
    ensures
        find_filter(fs, name) == Some(i),
    decreases fs.len(),
{
    if i == 0 {
    } else {
        assert(fs[0].file_name@ != name);
        lemma_find_filter_at(fs.drop_first(), name, i - 1);
    }
}

/// No filter carries the key.
proof fn lemma_find_filter_none(fs: Seq<Filter>, name: Seq<char>)
    requires
        forall|k: int| 0 <= k < fs.len() ==> (#[trigger] fs[k]).file_name@ != name,
    ensures
        find_filter(fs, name) is None,
    decreases fs.len(),
{
    if fs.len() > 0 {
        lemma_find_filter_none(fs.drop_first(), name);
    }
}

/// A copy of a string vector.
fn clone_string_vec(v: &Vec<String>) -> (r: Vec<String>)
    ensures
        r.deep_view() == v.deep_view(),
        r@ == v@,
{
    let n = v.len();
    let mut out: Vec<String> = Vec::new();
    for i in 0..n
        invariant
            n == v.len(),
            out@ =~= v@.take(i as int),
    {
        out.push(v[i].clone());
        assert(out@ =~= v@.take(i + 1));
    }
    proof {
        assert(v@.take(n as int) =~= v@);
        assert(out.deep_view() =~~= v.deep_view());
    }
    out
}


/// Whether a configured filter realises one directory row: the row's data,
/// enabled as the row says, under a content-addressed file name.
pub open spec fn spec_filter_of_row(f: Filter, s: filter::DefaultFilterSpec) -> bool {
    &&& f.enabled == s.enabled_by_default
    &&& f.title@ == s.title
    &&& f.group == s.group
    &&& f.file_name@ == filter::spec_filter_filename(vstd::utf8::encode_utf8(s.url))
    &&& f.url@ == s.url
}

impl Configuration {
    /// A fresh configuration around newly generated CA material: default
    /// listeners on 127.0.0.1, no exclusions, no custom rules, and the
    /// built-in filter directory with every kept entry content-addressed.
    pub fn new_default(ca_certificate_pem: String, ca_private_key_pem: String) -> (r:
        Configuration)
        ensures
            r.exclusions@.len() == 0,
            r.custom_filters@.len() == 0,
            r.ca.ca_certificate == Some(ca_certificate_pem),
            r.ca.ca_private_key == Some(ca_private_key_pem),
            r.ca.ca_certificate_path is None,
            r.ca.ca_private_key_path is None,
            r.network.bind_addr@ == "127.0.0.1"@,
            r.network.proxy_port == 8100,
            r.network.web_port == 8200,
            !r.network.tls,
            r.network.tls_cert_path is None,
            r.network.tls_key_path is None,
            r.network.listen_url is None,
            r.filters@.len() == filter::kept_table().len(),
            forall|i: int|
                0 <= i < r.filters@.len() ==> spec_filter_of_row(
                    #[trigger] r.filters@[i],
                    filter::kept_table()[i],
                ),
    {
        let defaults = filter::DefaultFilters::new();
        let list = defaults.list();
        let n = list.len();
        let mut filters: Vec<Filter> = Vec::new();
        for i in 0..n
            invariant
                n == list.len(),
                defaults.wf(),
                list@ == defaults.spec_list(),
                filter::matches_rows(list@, filter::kept_table()),
                filters@.len() == i,
                i <= filter::kept_table().len(),
                forall|k: int|
                    0 <= k < filters@.len() ==> spec_filter_of_row(
                        #[trigger] filters@[k],
                        filter::kept_table()[k],
                    ),
        {
            let entry = &list[i];
            proof {
                assert(filter::default_filter_wf(list@[i as int]));
                assert(filter::matches_row(list@[i as int], filter::kept_table()[i as int]));
            }
            let converted = Filter::from(
                filter::DefaultFilter {
                    enabled_by_default: entry.enabled_by_default,
                    file_name: entry.file_name.clone(),
                    group: entry.group.clone(),
                    title: entry.title.clone(),
                    url: entry.url.clone(),
                },
            );
            proof {
                filter::lemma_group_str_round_trip(filter::kept_table()[i as int].group);
            }
            filters.push(converted);
        }
        Configuration {
            exclusions: Vec::new(),
            custom_filters: Vec::new(),
            ca: Ca {
                ca_certificate: Some(ca_certificate_pem),
                ca_private_key: Some(ca_private_key_pem),
                ca_certificate_path: None,
                ca_private_key_path: None,
            },
            network: NetworkConfig {
                bind_addr: String::from_str("127.0.0.1"),
                proxy_port: 8100,
                web_port: 8200,
                tls: false,
                tls_cert_path: None,
                tls_key_path: None,
                listen_url: None,
            },
            filters,
        }
    }
}

} // verus!
