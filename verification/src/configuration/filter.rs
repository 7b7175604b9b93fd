use vstd::prelude::*;
use vstd::string::StringSliceAdditionalSpecFns;
use crate::digest::{hex_of, sha256_of, sha256_hex, spec_sha256_hex};

verus! {

/// The group a filter list belongs to.
#[derive(Debug, Clone, Copy, PartialEq, Eq, Structural)]
pub enum FilterGroup {
    Default,
    Regional,
    Ads,
    Privacy,
    Malware,
    Social,
}

/// The configuration-file spelling of a group.
pub open spec fn group_str(g: FilterGroup) -> Seq<char> {
    match g {
        FilterGroup::Default => "default"@,
        FilterGroup::Regional => "regional"@,
        FilterGroup::Ads => "ads"@,
        FilterGroup::Privacy => "privacy"@,
        FilterGroup::Malware => "malware"@,
        FilterGroup::Social => "social"@,
    }
}

/// The group a configuration-file spelling denotes.
pub open spec fn group_from_str(s: Seq<char>) -> Option<FilterGroup> {
    if s == "default"@ {
        Some(FilterGroup::Default)
    } else if s == "regional"@ {
        Some(FilterGroup::Regional)
    } else if s == "ads"@ {
        Some(FilterGroup::Ads)
    } else if s == "privacy"@ {
        Some(FilterGroup::Privacy)
    } else if s == "malware"@ {
        Some(FilterGroup::Malware)
    } else if s == "social"@ {
        Some(FilterGroup::Social)
    } else {
        None
    }
}

impl FilterGroup {
    /// The configuration-file spelling of this group.
    pub fn to_string(&self) -> (r: String)
        ensures
            r@ == group_str(*self),
    {
        match self {
            FilterGroup::Default => String::from_str("default"),
            FilterGroup::Regional => String::from_str("regional"),
            FilterGroup::Ads => String::from_str("ads"),
            FilterGroup::Privacy => String::from_str("privacy"),
            FilterGroup::Malware => String::from_str("malware"),
            FilterGroup::Social => String::from_str("social"),
        }
    }
}

/// Every spelling parses back to its group.
pub proof fn lemma_group_str_round_trip(g: FilterGroup)
    ensures
        group_from_str(group_str(g)) == Some(g),
{
    reveal_strlit("default");
    reveal_strlit("regional");
    reveal_strlit("ads");
    reveal_strlit("privacy");
    reveal_strlit("malware");
    reveal_strlit("social");
    assert("default"@.len() == 7);
    assert("regional"@.len() == 8);
    assert("ads"@.len() == 3);
    assert("privacy"@.len() == 7);
    assert("malware"@.len() == 7);
    assert("social"@.len() == 6);
    assert("default"@[0] == 'd');
    assert("privacy"@[0] == 'p');
    assert("malware"@[0] == 'm');
}

/// The content-addressed on-disk name of a filter list: the lower-case
/// hexadecimal SHA-256 of the list's URL, then ".txt".
pub open spec fn spec_filter_filename(url_bytes: Seq<u8>) -> Seq<char> {
    spec_sha256_hex(url_bytes) + ".txt"@
}

/// The lower-case hexadecimal SHA-256 digest of a string.
pub fn calculate_sha256_hex(input: &str) -> (r: String)
    ensures
        r@ == spec_sha256_hex(input.spec_bytes()),
        r@.len() == 64,
{
    sha256_hex(input)
}

/// The content-addressed file name of a filter list, stable across runs
/// since it is a function of the URL alone.
pub fn calc_filter_filename(url: &str) -> (r: String)
    ensures
        r@ == spec_filter_filename(url.spec_bytes()),
{
    let mut s = calculate_sha256_hex(url);
    s.append(".txt");
    s
}

/// Distinct digests give distinct file names, so distinct lists never
/// collide on disk as long as their URL hashes differ: caching, loading and
/// compiling are then independent of file-name collisions.
pub proof fn lemma_filter_filename_injective(a: Seq<u8>, b: Seq<u8>)
    requires
        sha256_of(a) != sha256_of(b),
        sha256_of(a).len() == sha256_of(b).len(),
    ensures
        spec_filter_filename(a) != spec_filter_filename(b),
{
    let da = sha256_of(a);
    let db = sha256_of(b);
    assert(exists|i: int| 0 <= i < da.len() && da[i] != db[i]) by {
        if forall|i: int| 0 <= i < da.len() ==> da[i] == db[i] {
            assert(da =~= db);
        }
    }
    let i = choose|i: int| 0 <= i < da.len() && da[i] != db[i];
    let x = da[i];
    let y = db[i];
    assert((x >> 4) < 16 && (x & 0xf) < 16 && (y >> 4) < 16 && (y & 0xf) < 16) by (bit_vector);
    if (da[i] >> 4) != (db[i] >> 4) {
        assert(hex_of(da)[2 * i] != hex_of(db)[2 * i]) by {
            lemma_hex_digit_injective((da[i] >> 4) as u8, (db[i] >> 4) as u8);
        }
        assert(spec_filter_filename(a)[2 * i] != spec_filter_filename(b)[2 * i]);
    } else {
        assert((x & 0xf) != (y & 0xf)) by (bit_vector)
            requires
                x != y,
                (x >> 4) == (y >> 4),
        ;
        assert((da[i] & 0xf) != (db[i] & 0xf));
        assert(hex_of(da)[2 * i + 1] != hex_of(db)[2 * i + 1]) by {
            lemma_hex_digit_injective((da[i] & 0xf) as u8, (db[i] & 0xf) as u8);
        }
        assert(spec_filter_filename(a)[2 * i + 1] != spec_filter_filename(b)[2 * i + 1]);
    }
}

/// Distinct nibbles have distinct hexadecimal digits.
proof fn lemma_hex_digit_injective(m: u8, n: u8)
    requires
        m < 16,
        n < 16,
        m != n,
    ensures
        crate::digest::hex_digit(m) != crate::digest::hex_digit(n),
{
    if m < 10 && n < 10 {
        assert((48 + m) as char as u32 == 48 + m);
        assert((48 + n) as char as u32 == 48 + n);
    } else if m >= 10 && n >= 10 {
        assert((87 + m) as char as u32 == 87 + m);
        assert((87 + n) as char as u32 == 87 + n);
    } else if m < 10 {
        assert((48 + m) as char as u32 == 48 + m);
        assert((87 + n) as char as u32 == 87 + n);
    } else {
        assert((87 + m) as char as u32 == 87 + m);
        assert((48 + n) as char as u32 == 48 + n);
    }
}

/// Relies on url::Url::parse: whether a text parses as an absolute URL is a
/// function of the text alone.
#[verifier::external_body]
fn url_parses(s: &str) -> (r: bool)
    ensures
        r == spec_url_ok(s@),
{
    url::Url::parse(s).is_ok()
}

/// Whether url::Url::parse accepts the text.
pub uninterp spec fn spec_url_ok(s: Seq<char>) -> bool;

/// One entry of the built-in filter directory.
#[derive(Debug, Clone, PartialEq, Eq)]
pub struct DefaultFilter {
    /// Whether a fresh configuration enables the list.
    pub enabled_by_default: bool,
    /// The content-addressed local file name.
    pub file_name: String,
    /// The configuration-file spelling of the group.
    pub group: String,
    /// The human-readable title.
    pub title: String,
    /// The list's URL.
    pub url: String,
}

/// A well-formed directory entry: its file name is content-addressed from
/// its URL and its group spelling is one of the six groups.
pub open spec fn default_filter_wf(f: DefaultFilter) -> bool {
    &&& f.file_name@ == spec_filter_filename(vstd::utf8::encode_utf8(f.url@))
    &&& group_from_str(f.group@) is Some
}

/// One filter list of the configuration.
#[derive(Debug, Clone, PartialEq, Eq)]
pub struct Filter {
    /// Whether the list takes part in engine builds.
    pub enabled: bool,
    /// The human-readable title.
    pub title: String,
    /// The group the list belongs to.
    pub group: FilterGroup,
    /// The content-addressed local file name.
    pub file_name: String,
    /// The list's URL.
    pub url: String,
}

impl Filter {
    /// A field-identical copy.
    pub fn duplicate(&self) -> (r: Filter)
        ensures
            r == *self,
    {
        Filter {
            enabled: self.enabled,
            title: self.title.clone(),
            group: self.group,
            file_name: self.file_name.clone(),
            url: self.url.clone(),
        }
    }

    /// The configuration entry a directory entry denotes.
    pub fn from(default_filter: DefaultFilter) -> (r: Filter)
        requires
            group_from_str(default_filter.group@) is Some,
        ensures
            r.enabled == default_filter.enabled_by_default,
            r.title == default_filter.title,
            Some(r.group) == group_from_str(default_filter.group@),
            r.file_name == default_filter.file_name,
            r.url == default_filter.url,
    {
        let group = parse_group(default_filter.group.as_str());
        Filter {
            enabled: default_filter.enabled_by_default,
            title: default_filter.title,
            group,
            file_name: default_filter.file_name,
            url: default_filter.url,
        }
    }
}

/// The group a spelling denotes; the caller guarantees it is one.
fn parse_group(s: &str) -> (r: FilterGroup)
    requires
        group_from_str(s@) is Some,
    ensures
        Some(r) == group_from_str(s@),
{
    if crate::textutil::str_eq(s, "default") {
        FilterGroup::Default
    } else if crate::textutil::str_eq(s, "regional") {
        FilterGroup::Regional
    } else if crate::textutil::str_eq(s, "ads") {
        FilterGroup::Ads
    } else if crate::textutil::str_eq(s, "privacy") {
        FilterGroup::Privacy
    } else if crate::textutil::str_eq(s, "malware") {
        FilterGroup::Malware
    } else {
        FilterGroup::Social
    }
}

/// The built-in directory of filter lists.
#[derive(Debug, Clone, PartialEq, Eq)]
pub struct DefaultFilters(Vec<DefaultFilter>);

impl DefaultFilters {
    /// The entries the directory holds.
    pub closed spec fn spec_list(&self) -> Seq<DefaultFilter> {
        self.0@
    }

    /// Every entry of the directory is well-formed.
    pub open spec fn wf(&self) -> bool {
        forall|i: int| 0 <= i < self.spec_list().len() ==> default_filter_wf(#[trigger] self.spec_list()[i])
    }

    /// The entries, copied.
    pub fn list(&self) -> (r: Vec<DefaultFilter>)
        ensures
            r@ == self.spec_list(),
    {
        let n = self.0.len();
        let mut out: Vec<DefaultFilter> = Vec::new();
        for i in 0..n
            invariant
                n == self.0.len(),
                out@ =~= self.0@.take(i as int),
        {
            let f = &self.0[i];
            out.push(
                DefaultFilter {
                    enabled_by_default: f.enabled_by_default,
                    file_name: f.file_name.clone(),
                    group: f.group.clone(),
                    title: f.title.clone(),
                    url: f.url.clone(),
                },
            );
            assert(out@ =~= self.0@.take(i + 1));
        }
        assert(self.0@.take(n as int) =~= self.0@);
        out
    }
}

/// Validates one directory entry and appends it: an entry whose URL does
/// not parse is dropped, every kept entry is well-formed.
fn push_parsed(
    v: &mut Vec<DefaultFilter>,
    url: &str,
    title: &str,
    group: FilterGroup,
    enabled_by_default: bool,
)
    requires
        forall|i: int|
            0 <= i < old(v)@.len() ==> default_filter_wf(#[trigger] old(v)@[i]),
    ensures
        forall|i: int| 0 <= i < final(v)@.len() ==> default_filter_wf(#[trigger] final(v)@[i]),
        spec_url_ok(url@) ==> final(v)@.len() == old(v)@.len() + 1 && final(v)@.drop_last() == old(
            v,
        )@ && {
            let e = final(v)@.last();
            &&& e.enabled_by_default == enabled_by_default
            &&& e.file_name@ == spec_filter_filename(url.spec_bytes())
            &&& e.group@ == group_str(group)
            &&& e.title@ == title@
            &&& e.url@ == url@
        },
        !spec_url_ok(url@) ==> final(v)@ == old(v)@,
{
    if url_parses(url) {
        let file_name = calc_filter_filename(url);
        let entry = DefaultFilter {
            enabled_by_default,
            file_name,
            group: group.to_string(),
            title: title.to_owned(),
            url: url.to_owned(),
        };
        proof {
            lemma_group_str_round_trip(group);
            assert(default_filter_wf(entry));
        }
        let ghost before = v@;
        v.push(entry);
        assert(forall|i: int| 0 <= i < before.len() ==> v@[i] == before[i]);
    }
}

/// One row of the built-in directory, as the specification sees it.
pub struct DefaultFilterSpec {
    pub url: Seq<char>,
    pub title: Seq<char>,
    pub group: FilterGroup,
    pub enabled_by_default: bool,
}

/// The built-in directory: the uBlock base lists, then the ads, privacy,
/// malware, social and regional groups, in order.
pub open spec fn default_filter_table() -> Seq<DefaultFilterSpec> {
    seq![
        DefaultFilterSpec {
            url: "https://raw.githubusercontent.com/uBlockOrigin/uAssets/master/filters/filters.txt"@,
            title: "uBlock filters"@,
            group: FilterGroup::Default,
            enabled_by_default: true,
        },
        DefaultFilterSpec {
            url: "https://raw.githubusercontent.com/uBlockOrigin/uAssets/master/filters/badware.txt"@,
            title: "uBlock filters - Badware risks"@,
            group: FilterGroup::Default,
            enabled_by_default: true,
        },
        DefaultFilterSpec {
            url: "https://raw.githubusercontent.com/uBlockOrigin/uAssets/master/filters/privacy.txt"@,
            title: "uBlock filters - Privacy"@,
            group: FilterGroup::Default,
            enabled_by_default: true,
        },
        DefaultFilterSpec {
            url: "https://raw.githubusercontent.com/uBlockOrigin/uAssets/master/filters/resource-abuse.txt"@,
            title: "uBlock filters - Resource abuse"@,
            group: FilterGroup::Default,
            enabled_by_default: true,
        },
        DefaultFilterSpec {
            url: "https://raw.githubusercontent.com/uBlockOrigin/uAssets/master/filters/unbreak.txt"@,
            title: "uBlock filters - Unbreak"@,
            group: FilterGroup::Default,
            enabled_by_default: true,
        },
        DefaultFilterSpec {
            url: "https://filters.adtidy.org/extension/ublock/filters/2_without_easylist.txt"@,
            title: "AdGuard Base"@,
            group: FilterGroup::Ads,
            enabled_by_default: false,
        },
        DefaultFilterSpec {
            url: "https://filters.adtidy.org/extension/ublock/filters/11.txt"@,
            title: "AdGuard Mobile Ads"@,
            group: FilterGroup::Ads,
            enabled_by_default: false,
        },
        DefaultFilterSpec {
            url: "https://easylist.to/easylist/easylist.txt"@,
            title: "EasyList"@,
            group: FilterGroup::Ads,
            enabled_by_default: true,
        },
        DefaultFilterSpec {
            url: "https://filters.adtidy.org/extension/ublock/filters/3.txt"@,
            title: "AdGuard Tracking Protection"@,
            group: FilterGroup::Privacy,
            enabled_by_default: false,
        },
        DefaultFilterSpec {
            url: "https://filters.adtidy.org/extension/ublock/filters/17.txt"@,
            title: "AdGuard URL Tracking Protection"@,
            group: FilterGroup::Privacy,
            enabled_by_default: false,
        },
        DefaultFilterSpec {
            url: "https://raw.githubusercontent.com/uBlockOrigin/uAssets/master/filters/lan-block.txt"@,
            title: "Block Outsider Intrusion into LAN"@,
            group: FilterGroup::Privacy,
            enabled_by_default: false,
        },
        DefaultFilterSpec {
            url: "https://easylist.to/easylist/easyprivacy.txt"@,
            title: "EasyPrivacy"@,
            group: FilterGroup::Privacy,
            enabled_by_default: true,
        },
        DefaultFilterSpec {
            url: "https://curben.gitlab.io/malware-filter/phishing-filter.txt"@,
            title: "Phishing URL Blocklist"@,
            group: FilterGroup::Malware,
            enabled_by_default: false,
        },
        DefaultFilterSpec {
            url: "https://curben.gitlab.io/malware-filter/pup-filter.txt"@,
            title: "PUP Domains Blocklist"@,
            group: FilterGroup::Malware,
            enabled_by_default: false,
        },
        DefaultFilterSpec {
            url: "https://filters.adtidy.org/extension/ublock/filters/14.txt"@,
            title: "AdGuard Annoyances"@,
            group: FilterGroup::Social,
            enabled_by_default: false,
        },
        DefaultFilterSpec {
            url: "https://filters.adtidy.org/extension/ublock/filters/4.txt"@,
            title: "AdGuard Social Media"@,
            group: FilterGroup::Social,
            enabled_by_default: false,
        },
        DefaultFilterSpec {
            url: "https://secure.fanboy.co.nz/fanboy-antifacebook.txt"@,
            title: "Anti-Facebook"@,
            group: FilterGroup::Social,
            enabled_by_default: false,
        },
        DefaultFilterSpec {
            url: "https://secure.fanboy.co.nz/fanboy-annoyance.txt"@,
            title: "Fanboy's Annoyance"@,
            group: FilterGroup::Social,
            enabled_by_default: false,
        },
        DefaultFilterSpec {
            url: "https://secure.fanboy.co.nz/fanboy-cookiemonster.txt"@,
            title: "EasyList Cookie"@,
            group: FilterGroup::Social,
            enabled_by_default: false,
        },
        DefaultFilterSpec {
            url: "https://easylist.to/easylist/fanboy-social.txt"@,
            title: "Fanboy's Social"@,
            group: FilterGroup::Social,
            enabled_by_default: false,
        },
        DefaultFilterSpec {
            url: "https://raw.githubusercontent.com/uBlockOrigin/uAssets/master/filters/annoyances.txt"@,
            title: "uBlock filters - Annoyances"@,
            group: FilterGroup::Social,
            enabled_by_default: false,
        },
        DefaultFilterSpec {
            url: "https://easylist-downloads.adblockplus.org/Liste_AR.txt"@,
            title: "ara: Liste AR"@,
            group: FilterGroup::Regional,
            enabled_by_default: false,
        },
        DefaultFilterSpec {
            url: "https://stanev.org/abp/adblock_bg.txt"@,
            title: "BGR: Bulgarian Adblock list"@,
            group: FilterGroup::Regional,
            enabled_by_default: false,
        },
        DefaultFilterSpec {
            url: "https://filters.adtidy.org/extension/ublock/filters/224.txt"@,
            title: "CHN: AdGuard Chinese (中文)"@,
            group: FilterGroup::Regional,
            enabled_by_default: false,
        },
        DefaultFilterSpec {
            url: "https://raw.githubusercontent.com/tomasko126/easylistczechandslovak/master/filters.txt"@,
            title: "CZE, SVK: EasyList Czech and Slovak"@,
            group: FilterGroup::Regional,
            enabled_by_default: false,
        },
        DefaultFilterSpec {
            url: "https://easylist.to/easylistgermany/easylistgermany.txt"@,
            title: "DEU: EasyList Germany"@,
            group: FilterGroup::Regional,
            enabled_by_default: false,
        },
        DefaultFilterSpec {
            url: "https://adblock.ee/list.php"@,
            title: "EST: Eesti saitidele kohandatud filter"@,
            group: FilterGroup::Regional,
            enabled_by_default: false,
        },
        DefaultFilterSpec {
            url: "https://raw.githubusercontent.com/finnish-easylist-addition/finnish-easylist-addition/master/Finland_adb.txt"@,
            title: "FIN: Adblock List for Finland"@,
            group: FilterGroup::Regional,
            enabled_by_default: false,
        },
        DefaultFilterSpec {
            url: "https://filters.adtidy.org/extension/ublock/filters/16.txt"@,
            title: "FRA: AdGuard Français"@,
            group: FilterGroup::Regional,
            enabled_by_default: false,
        },
        DefaultFilterSpec {
            url: "https://www.void.gr/kargig/void-gr-filters.txt"@,
            title: "GRC: Greek AdBlock Filter"@,
            group: FilterGroup::Regional,
            enabled_by_default: false,
        },
        DefaultFilterSpec {
            url: "https://raw.githubusercontent.com/hufilter/hufilter/master/hufilter-ublock.txt"@,
            title: "HUN: hufilter"@,
            group: FilterGroup::Regional,
            enabled_by_default: false,
        },
        DefaultFilterSpec {
            url: "https://raw.githubusercontent.com/ABPindo/indonesianadblockrules/master/subscriptions/abpindo.txt"@,
            title: "IDN, MYS: ABPindo"@,
            group: FilterGroup::Regional,
            enabled_by_default: false,
        },
        DefaultFilterSpec {
            url: "https://raw.githubusercontent.com/farrokhi/adblock-iran/master/filter.txt"@,
            title: "IRN: Adblock-Iran"@,
            group: FilterGroup::Regional,
            enabled_by_default: false,
        },
        DefaultFilterSpec {
            url: "https://adblock.gardar.net/is.abp.txt"@,
            title: "ISL: Icelandic ABP List"@,
            group: FilterGroup::Regional,
            enabled_by_default: false,
        },
        DefaultFilterSpec {
            url: "https://raw.githubusercontent.com/easylist/EasyListHebrew/master/EasyListHebrew.txt"@,
            title: "ISR: EasyList Hebrew"@,
            group: FilterGroup::Regional,
            enabled_by_default: false,
        },
        DefaultFilterSpec {
            url: "https://easylist-downloads.adblockplus.org/easylistitaly.txt"@,
            title: "ITA: EasyList Italy"@,
            group: FilterGroup::Regional,
            enabled_by_default: false,
        },
        DefaultFilterSpec {
            url: "https://raw.githubusercontent.com/gioxx/xfiles/master/filtri.txt"@,
            title: "ITA: ABP X Files"@,
            group: FilterGroup::Regional,
            enabled_by_default: false,
        },
        DefaultFilterSpec {
            url: "https://filters.adtidy.org/extension/ublock/filters/7.txt"@,
            title: "JPN: AdGuard Japanese"@,
            group: FilterGroup::Regional,
            enabled_by_default: false,
        },
        DefaultFilterSpec {
            url: "https://raw.githubusercontent.com/yous/YousList/master/youslist.txt"@,
            title: "KOR: YousList"@,
            group: FilterGroup::Regional,
            enabled_by_default: false,
        },
        DefaultFilterSpec {
            url: "https://raw.githubusercontent.com/EasyList-Lithuania/easylist_lithuania/master/easylistlithuania.txt"@,
            title: "LTU: EasyList Lithuania"@,
            group: FilterGroup::Regional,
            enabled_by_default: false,
        },
        DefaultFilterSpec {
            url: "https://notabug.org/latvian-list/adblock-latvian/raw/master/lists/latvian-list.txt"@,
            title: "LVA: Latvian List"@,
            group: FilterGroup::Regional,
            enabled_by_default: false,
        },
        DefaultFilterSpec {
            url: "https://easylist-downloads.adblockplus.org/easylistdutch.txt"@,
            title: "NLD: EasyList Dutch"@,
            group: FilterGroup::Regional,
            enabled_by_default: false,
        },
        DefaultFilterSpec {
            url: "https://raw.githubusercontent.com/DandelionSprout/adfilt/master/NorwegianList.txt"@,
            title: "NOR, DNK, ISL: Dandelion Sprouts nordiske filtre"@,
            group: FilterGroup::Regional,
            enabled_by_default: false,
        },
        DefaultFilterSpec {
            url: "https://raw.githubusercontent.com/MajkiIT/polish-ads-filter/master/polish-adblock-filters/adblock.txt"@,
            title: "POL: Oficjalne Polskie Filtry do AdBlocka, uBlocka Origin i AdGuarda"@,
            group: FilterGroup::Regional,
            enabled_by_default: false,
        },
        DefaultFilterSpec {
            url: "https://raw.githubusercontent.com/olegwukr/polish-privacy-filters/master/anti-adblock.txt"@,
            title: "POL: Oficjalne polskie filtry przeciwko alertom o Adblocku"@,
            group: FilterGroup::Regional,
            enabled_by_default: false,
        },
        DefaultFilterSpec {
            url: "https://road.adblock.ro/lista.txt"@,
            title: "ROU: Romanian Ad (ROad) Block List Light"@,
            group: FilterGroup::Regional,
            enabled_by_default: false,
        },
        DefaultFilterSpec {
            url: "https://easylist-downloads.adblockplus.org/advblock+cssfixes.txt"@,
            title: "RUS: RU AdList"@,
            group: FilterGroup::Regional,
            enabled_by_default: false,
        },
        DefaultFilterSpec {
            url: "https://easylist-downloads.adblockplus.org/easylistspanish.txt"@,
            title: "spa: EasyList Spanish"@,
            group: FilterGroup::Regional,
            enabled_by_default: false,
        },
        DefaultFilterSpec {
            url: "https://filters.adtidy.org/extension/ublock/filters/9.txt"@,
            title: "spa, por: AdGuard Spanish/Portuguese"@,
            group: FilterGroup::Regional,
            enabled_by_default: false,
        },
        DefaultFilterSpec {
            url: "https://raw.githubusercontent.com/betterwebleon/slovenian-list/master/filters.txt"@,
            title: "SVN: Slovenian List"@,
            group: FilterGroup::Regional,
            enabled_by_default: false,
        },
        DefaultFilterSpec {
            url: "https://raw.githubusercontent.com/lassekongo83/Frellwits-filter-lists/master/Frellwits-Swedish-Filter.txt"@,
            title: "SWE: Frellwit's Swedish Filter"@,
            group: FilterGroup::Regional,
            enabled_by_default: false,
        },
        DefaultFilterSpec {
            url: "https://raw.githubusercontent.com/easylist-thailand/easylist-thailand/master/subscription/easylist-thailand.txt"@,
            title: "THA: EasyList Thailand"@,
            group: FilterGroup::Regional,
            enabled_by_default: false,
        },
        DefaultFilterSpec {
            url: "https://filters.adtidy.org/extension/ublock/filters/13.txt"@,
            title: "TUR: AdGuard Turkish"@,
            group: FilterGroup::Regional,
            enabled_by_default: false,
        },
        DefaultFilterSpec {
            url: "https://raw.githubusercontent.com/abpvn/abpvn/master/filter/abpvn_ublock.txt"@,
            title: "VIE: ABPVN List"@,
            group: FilterGroup::Regional,
            enabled_by_default: false,
        },
    ]
}

/// The rows of a table whose URLs parse, in order.
pub open spec fn kept_rows(rows: Seq<DefaultFilterSpec>) -> Seq<DefaultFilterSpec>
    decreases rows.len(),
{
    if rows.len() == 0 {
        Seq::empty()
    } else {
        let rest = kept_rows(rows.drop_last());
        if spec_url_ok(rows.last().url) {
            rest.push(rows.last())
        } else {
            rest
        }
    }
}

/// The rows whose URLs parse; only these become entries.
pub open spec fn kept_table() -> Seq<DefaultFilterSpec> {
    kept_rows(default_filter_table())
}

/// Whether an entry realises one row: same data, and the file name
/// content-addressed from the row's URL.
pub open spec fn matches_row(f: DefaultFilter, s: DefaultFilterSpec) -> bool {
    &&& f.enabled_by_default == s.enabled_by_default
    &&& f.file_name@ == spec_filter_filename(vstd::utf8::encode_utf8(s.url))
    &&& f.group@ == group_str(s.group)
    &&& f.title@ == s.title
    &&& f.url@ == s.url
}

/// Whether a list of entries realises a list of rows, one for one, in order.
pub open spec fn matches_rows(fs: Seq<DefaultFilter>, rows: Seq<DefaultFilterSpec>) -> bool {
    fs.len() == rows.len() && forall|i: int|
        0 <= i < fs.len() ==> matches_row(#[trigger] fs[i], rows[i])
}

/// The directory row at one index.
fn table_entry(k: usize) -> (r: (&'static str, &'static str, FilterGroup, bool))
    requires
        k < 54,
    ensures
        ({
            let s = default_filter_table()[k as int];
            r.0@ == s.url && r.1@ == s.title && r.2 == s.group && r.3 == s.enabled_by_default
        }),
{
    match k {
        0 => ("https://raw.githubusercontent.com/uBlockOrigin/uAssets/master/filters/filters.txt", "uBlock filters", FilterGroup::Default, true),
        1 => ("https://raw.githubusercontent.com/uBlockOrigin/uAssets/master/filters/badware.txt", "uBlock filters - Badware risks", FilterGroup::Default, true),
        2 => ("https://raw.githubusercontent.com/uBlockOrigin/uAssets/master/filters/privacy.txt", "uBlock filters - Privacy", FilterGroup::Default, true),
        3 => ("https://raw.githubusercontent.com/uBlockOrigin/uAssets/master/filters/resource-abuse.txt", "uBlock filters - Resource abuse", FilterGroup::Default, true),
        4 => ("https://raw.githubusercontent.com/uBlockOrigin/uAssets/master/filters/unbreak.txt", "uBlock filters - Unbreak", FilterGroup::Default, true),
        5 => ("https://filters.adtidy.org/extension/ublock/filters/2_without_easylist.txt", "AdGuard Base", FilterGroup::Ads, false),
        6 => ("https://filters.adtidy.org/extension/ublock/filters/11.txt", "AdGuard Mobile Ads", FilterGroup::Ads, false),
        7 => ("https://easylist.to/easylist/easylist.txt", "EasyList", FilterGroup::Ads, true),
        8 => ("https://filters.adtidy.org/extension/ublock/filters/3.txt", "AdGuard Tracking Protection", FilterGroup::Privacy, false),
        9 => ("https://filters.adtidy.org/extension/ublock/filters/17.txt", "AdGuard URL Tracking Protection", FilterGroup::Privacy, false),
        10 => ("https://raw.githubusercontent.com/uBlockOrigin/uAssets/master/filters/lan-block.txt", "Block Outsider Intrusion into LAN", FilterGroup::Privacy, false),
        11 => ("https://easylist.to/easylist/easyprivacy.txt", "EasyPrivacy", FilterGroup::Privacy, true),
        12 => ("https://curben.gitlab.io/malware-filter/phishing-filter.txt", "Phishing URL Blocklist", FilterGroup::Malware, false),
        13 => ("https://curben.gitlab.io/malware-filter/pup-filter.txt", "PUP Domains Blocklist", FilterGroup::Malware, false),
        14 => ("https://filters.adtidy.org/extension/ublock/filters/14.txt", "AdGuard Annoyances", FilterGroup::Social, false),
        15 => ("https://filters.adtidy.org/extension/ublock/filters/4.txt", "AdGuard Social Media", FilterGroup::Social, false),
        16 => ("https://secure.fanboy.co.nz/fanboy-antifacebook.txt", "Anti-Facebook", FilterGroup::Social, false),
        17 => ("https://secure.fanboy.co.nz/fanboy-annoyance.txt", "Fanboy's Annoyance", FilterGroup::Social, false),
        18 => ("https://secure.fanboy.co.nz/fanboy-cookiemonster.txt", "EasyList Cookie", FilterGroup::Social, false),
        19 => ("https://easylist.to/easylist/fanboy-social.txt", "Fanboy's Social", FilterGroup::Social, false),
        20 => ("https://raw.githubusercontent.com/uBlockOrigin/uAssets/master/filters/annoyances.txt", "uBlock filters - Annoyances", FilterGroup::Social, false),
        21 => ("https://easylist-downloads.adblockplus.org/Liste_AR.txt", "ara: Liste AR", FilterGroup::Regional, false),
        22 => ("https://stanev.org/abp/adblock_bg.txt", "BGR: Bulgarian Adblock list", FilterGroup::Regional, false),
        23 => ("https://filters.adtidy.org/extension/ublock/filters/224.txt", "CHN: AdGuard Chinese (中文)", FilterGroup::Regional, false),
        24 => ("https://raw.githubusercontent.com/tomasko126/easylistczechandslovak/master/filters.txt", "CZE, SVK: EasyList Czech and Slovak", FilterGroup::Regional, false),
        25 => ("https://easylist.to/easylistgermany/easylistgermany.txt", "DEU: EasyList Germany", FilterGroup::Regional, false),
        26 => ("https://adblock.ee/list.php", "EST: Eesti saitidele kohandatud filter", FilterGroup::Regional, false),
        27 => ("https://raw.githubusercontent.com/finnish-easylist-addition/finnish-easylist-addition/master/Finland_adb.txt", "FIN: Adblock List for Finland", FilterGroup::Regional, false),
        28 => ("https://filters.adtidy.org/extension/ublock/filters/16.txt", "FRA: AdGuard Français", FilterGroup::Regional, false),
        29 => ("https://www.void.gr/kargig/void-gr-filters.txt", "GRC: Greek AdBlock Filter", FilterGroup::Regional, false),
        30 => ("https://raw.githubusercontent.com/hufilter/hufilter/master/hufilter-ublock.txt", "HUN: hufilter", FilterGroup::Regional, false),
        31 => ("https://raw.githubusercontent.com/ABPindo/indonesianadblockrules/master/subscriptions/abpindo.txt", "IDN, MYS: ABPindo", FilterGroup::Regional, false),
        32 => ("https://raw.githubusercontent.com/farrokhi/adblock-iran/master/filter.txt", "IRN: Adblock-Iran", FilterGroup::Regional, false),
        33 => ("https://adblock.gardar.net/is.abp.txt", "ISL: Icelandic ABP List", FilterGroup::Regional, false),
        34 => ("https://raw.githubusercontent.com/easylist/EasyListHebrew/master/EasyListHebrew.txt", "ISR: EasyList Hebrew", FilterGroup::Regional, false),
        35 => ("https://easylist-downloads.adblockplus.org/easylistitaly.txt", "ITA: EasyList Italy", FilterGroup::Regional, false),
        36 => ("https://raw.githubusercontent.com/gioxx/xfiles/master/filtri.txt", "ITA: ABP X Files", FilterGroup::Regional, false),
        37 => ("https://filters.adtidy.org/extension/ublock/filters/7.txt", "JPN: AdGuard Japanese", FilterGroup::Regional, false),
        38 => ("https://raw.githubusercontent.com/yous/YousList/master/youslist.txt", "KOR: YousList", FilterGroup::Regional, false),
        39 => ("https://raw.githubusercontent.com/EasyList-Lithuania/easylist_lithuania/master/easylistlithuania.txt", "LTU: EasyList Lithuania", FilterGroup::Regional, false),
        40 => ("https://notabug.org/latvian-list/adblock-latvian/raw/master/lists/latvian-list.txt", "LVA: Latvian List", FilterGroup::Regional, false),
        41 => ("https://easylist-downloads.adblockplus.org/easylistdutch.txt", "NLD: EasyList Dutch", FilterGroup::Regional, false),
        42 => ("https://raw.githubusercontent.com/DandelionSprout/adfilt/master/NorwegianList.txt", "NOR, DNK, ISL: Dandelion Sprouts nordiske filtre", FilterGroup::Regional, false),
        43 => ("https://raw.githubusercontent.com/MajkiIT/polish-ads-filter/master/polish-adblock-filters/adblock.txt", "POL: Oficjalne Polskie Filtry do AdBlocka, uBlocka Origin i AdGuarda", FilterGroup::Regional, false),
        44 => ("https://raw.githubusercontent.com/olegwukr/polish-privacy-filters/master/anti-adblock.txt", "POL: Oficjalne polskie filtry przeciwko alertom o Adblocku", FilterGroup::Regional, false),
        45 => ("https://road.adblock.ro/lista.txt", "ROU: Romanian Ad (ROad) Block List Light", FilterGroup::Regional, false),
        46 => ("https://easylist-downloads.adblockplus.org/advblock+cssfixes.txt", "RUS: RU AdList", FilterGroup::Regional, false),
        47 => ("https://easylist-downloads.adblockplus.org/easylistspanish.txt", "spa: EasyList Spanish", FilterGroup::Regional, false),
        48 => ("https://filters.adtidy.org/extension/ublock/filters/9.txt", "spa, por: AdGuard Spanish/Portuguese", FilterGroup::Regional, false),
        49 => ("https://raw.githubusercontent.com/betterwebleon/slovenian-list/master/filters.txt", "SVN: Slovenian List", FilterGroup::Regional, false),
        50 => ("https://raw.githubusercontent.com/lassekongo83/Frellwits-filter-lists/master/Frellwits-Swedish-Filter.txt", "SWE: Frellwit's Swedish Filter", FilterGroup::Regional, false),
        51 => ("https://raw.githubusercontent.com/easylist-thailand/easylist-thailand/master/subscription/easylist-thailand.txt", "THA: EasyList Thailand", FilterGroup::Regional, false),
        52 => ("https://filters.adtidy.org/extension/ublock/filters/13.txt", "TUR: AdGuard Turkish", FilterGroup::Regional, false),
        _ => ("https://raw.githubusercontent.com/abpvn/abpvn/master/filter/abpvn_ublock.txt", "VIE: ABPVN List", FilterGroup::Regional, false),
    }
}

impl DefaultFilters {
    /// Builds the directory: one entry for each row whose URL parses, in
    /// order, each entry carrying the row's data under a content-addressed
    /// file name.
    pub fn new() -> (r: Self)
        ensures
            r.wf(),
            matches_rows(r.spec_list(), kept_table()),
    {
        let mut v: Vec<DefaultFilter> = Vec::new();
        for k in 0..54usize
            invariant
                forall|i: int| 0 <= i < v@.len() ==> default_filter_wf(#[trigger] v@[i]),
                matches_rows(v@, kept_rows(default_filter_table().take(k as int))),
        {
            let (url, title, group, enabled_by_default) = table_entry(k);
            let ghost before = v@;
            let ghost kept_before = kept_rows(default_filter_table().take(k as int));
            push_parsed(&mut v, url, title, group, enabled_by_default);
            proof {
                let t = default_filter_table();
                let kept_after = kept_rows(t.take(k + 1));
                assert(t.take(k + 1).drop_last() =~= t.take(k as int));
                assert(t.take(k + 1).last() == t[k as int]);
                if spec_url_ok(t[k as int].url) {
                    assert(kept_after == kept_before.push(t[k as int]));
                    assert(v@.drop_last() == before);
                    assert(forall|i: int| 0 <= i < before.len() ==> v@[i] == before[i]);
                    assert(matches_row(v@.last(), t[k as int]));
                    assert forall|i: int| 0 <= i < v@.len() implies matches_row(
                        #[trigger] v@[i],
                        kept_after[i],
                    ) by {
                        if i < before.len() {
                            assert(v@[i] == before[i]);
                            assert(kept_after[i] == kept_before[i]);
                        } else {
                            assert(v@[i] == v@.last());
                        }
                    }
                } else {
                    assert(kept_after == kept_before);
                    assert(v@ == before);
                }
            }
        }
        proof {
            assert(default_filter_table().take(54) =~= default_filter_table());
        }
        DefaultFilters(v)
    }
}

} // verus!
