use vstd::prelude::*;

verus! {

/// A filter list as the FilterLists directory describes it.
#[derive(Debug, Clone, PartialEq, Eq)]
pub struct Filter {
    /// The identifier of the filter in the directory.
    pub id: u32,
    /// The unique name in title case.
    pub name: String,
    /// The brief description in English.
    pub description: Option<String>,
    /// The identifier of the license under which the list is released.
    pub license_id: u32,
    /// The identifiers of the syntaxes implemented by the list.
    pub syntax_ids: Vec<u32>,
    /// The identifiers of the languages targeted by the list.
    pub language_ids: Vec<u32>,
    /// The identifiers of the tags applied to the list.
    pub tag_ids: Vec<u32>,
    /// The primary view URL.
    pub primary_view_url: Option<String>,
    /// The identifiers of the maintainers of the list.
    pub maintainer_ids: Vec<u32>,
}

/// The description used when the directory provides none.
pub fn default_description() -> (r: Option<String>)
    ensures
        r matches Some(s) && s@ == "No description"@,
{
    Some(String::from_str("No description"))
}

/// The view URL used when the directory provides none.
pub fn default_view_url() -> (r: Option<String>)
    ensures
        r is None,
{
    None
}

/// One URL under which a filter list can be viewed.
#[derive(Debug, Clone, PartialEq, Eq)]
pub struct FilterViewURL {
    /// The segment number of the URL, for multi-part lists.
    pub segment_number: u32,
    /// How primary the URL is for the segment: 1 is the original, 2 and up are mirrors.
    pub primariness: u32,
    /// The view URL.
    pub url: String,
}

/// A language a filter list targets.
#[derive(Debug, Clone, PartialEq, Eq)]
pub struct FilterLanguage {
    /// The identifier of the language in the directory.
    pub id: u32,
    /// The unique ISO 639-1 code.
    pub iso6391: String,
    /// The unique ISO name.
    pub name: String,
    /// The identifiers of the filter lists targeted by this language.
    pub filter_list_ids: Vec<u32>,
}

/// Detailed information about a filter list.
#[derive(Debug, Clone, PartialEq, Eq)]
pub struct FilterDetails {
    /// The identifier of the filter in the directory.
    pub id: u32,
    /// The unique name in title case.
    pub name: String,
    /// The brief description in English.
    pub description: String,
    /// The identifier of the license under which the list is released.
    pub license_id: u32,
    /// The identifiers of the syntaxes implemented by the list.
    pub syntax_ids: Vec<u32>,
    /// The identifiers of the languages targeted by the list.
    pub language_ids: Vec<u32>,
    /// The identifiers of the tags applied to the list.
    pub tag_ids: Vec<u32>,
    /// The view URLs.
    pub view_urls: Vec<FilterViewURL>,
    /// The URL of the homepage.
    pub home_url: String,
    /// The URL of the Tor onion page.
    pub onion_url: String,
    /// The URL of the policy for the rules the list includes.
    pub policy_url: String,
    /// The URL of the submission form for adding rules.
    pub submission_url: String,
    /// The URL of the issue tracker.
    pub issues_url: String,
    /// The URL of the forum page.
    pub forum_url: String,
    /// The URL of the chat room.
    pub chat_url: String,
    /// The email address at which the project can be contacted.
    pub email_address: String,
    /// The URL at which donations can be made.
    pub donate_url: String,
    /// The identifiers of the maintainers of the list.
    pub maintainer_ids: Vec<u32>,
    /// The lists this one was forked from.
    pub upstream_filter_list_ids: Vec<u32>,
    /// The lists forked from this one.
    pub fork_filter_list_ids: Vec<u32>,
    /// The lists that include this one.
    pub included_in_filter_list_ids: Vec<u32>,
    /// The lists this one includes.
    pub includes_filter_list_ids: Vec<u32>,
    /// The lists this one depends upon.
    pub dependency_filter_list_ids: Vec<u32>,
    /// The lists dependent upon this one.
    pub dependent_filter_list_ids: Vec<u32>,
}

/// A piece of software that consumes filter lists.
#[derive(Debug, Clone, PartialEq, Eq)]
pub struct FilterSoftware {
    /// The identifier of the software in the directory.
    pub id: u32,
    /// The name of the software.
    pub name: String,
    /// The URL of the homepage.
    pub home_url: Option<String>,
    /// The URL from which the software can be downloaded.
    pub download_url: Option<String>,
    /// Whether the software supports the abp URL scheme.
    pub supports_abp_url_scheme: bool,
    /// The identifiers of the syntaxes the software supports.
    pub syntax_ids: Vec<u32>,
}

/// A filter rule syntax.
#[derive(Debug, Clone, PartialEq, Eq)]
pub struct FilterListSyntax {
    /// The identifier of the syntax in the directory.
    pub id: u32,
    /// The name of the syntax.
    pub name: String,
    /// The URL describing the syntax.
    pub url: String,
    /// The identifiers of the filter lists written in this syntax.
    pub filter_list_ids: Vec<u32>,
    /// The identifiers of the software supporting this syntax.
    pub software_ids: Vec<u32>,
}

/// A license a filter list is released under.
#[derive(Debug, Clone, PartialEq, Eq)]
pub struct FilterLicense {
    /// The identifier of the license in the directory.
    pub id: u32,
    /// The name of the license.
    pub name: String,
    /// The URL of the license text.
    pub url: Option<String>,
    /// Whether the license permits modification.
    pub permit_modifications: Option<bool>,
    /// Whether the license permits distribution.
    pub permit_distribution: Option<bool>,
    /// Whether the license permits commercial use.
    pub permit_commercial_use: Option<bool>,
    /// The identifiers of the filter lists released under this license.
    pub filter_list_ids: Vec<u32>,
}

/// A tag applied to filter lists.
#[derive(Debug, Clone, PartialEq, Eq)]
pub struct FilterTag {
    /// The identifier of the tag in the directory.
    pub id: u32,
    /// The name of the tag.
    pub name: String,
    /// The identifiers of the filter lists carrying this tag.
    pub filter_list_ids: Vec<u32>,
}

/// An error reported by the directory's API.
#[derive(Debug, Clone, PartialEq, Eq)]
pub struct FilterListAPIError {
    /// The error type.
    pub r_type: String,
    /// The error title.
    pub title: String,
    /// The HTTP status carried with the error.
    pub status: u16,
    /// The trace identifier of the failed request.
    pub trace_id: String,
}

/// A maintainer of one or more filter lists.
#[derive(Debug, Clone, PartialEq, Eq)]
pub struct FilterMaintainer {
    /// The identifier of the maintainer in the directory.
    pub id: u32,
    /// The name of the maintainer.
    pub name: String,
    /// The URL of the maintainer's homepage.
    pub url: String,
    /// The identifiers of the filter lists this maintainer tends.
    pub filter_list_ids: Vec<u32>,
}

} // verus!
