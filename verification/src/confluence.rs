//! The data the Confluence REST API exchanges, and the verified parts of the
//! client: configuration checking, authentication header building, request
//! URL building, and response classification. The HTTP transport itself lives
//! outside the library.

use vstd::prelude::*;
use vstd::string::StringExecFns;
use vstd::string::StrSliceExecFns;

use crate::errors::ConfluenceError;

verus! {

broadcast use vstd::std_specs::vec::group_vec_axioms;

/// Configuration for connecting to a Confluence instance.
#[derive(Debug)]
pub struct ConfluenceConfig {
    /// Base URL of the Confluence instance.
    pub base_url: String,
    /// API token for authentication.
    pub api_token: String,
    /// Username/email for authentication.
    pub username: String,
}

/// Links associated with a Confluence page.
#[derive(Debug, PartialEq)]
pub struct PageLinks {
    /// Web UI link.
    pub webui: Option<String>,
    /// API self link.
    pub self_link: Option<String>,
}

/// Individual page label.
#[derive(Debug, PartialEq)]
pub struct PageLabel {
    /// Label ID.
    pub id: Option<String>,
    /// Label name.
    pub name: String,
    /// Label prefix (usually "global").
    pub prefix: Option<String>,
}

/// Container for page labels.
#[derive(Debug, PartialEq)]
pub struct PageLabels {
    /// Array of label results.
    pub results: Vec<PageLabel>,
    /// Total number of labels.
    pub size: Option<i32>,
}

/// Metadata for a Confluence page, including labels.
#[derive(Debug, PartialEq)]
pub struct PageMetadata {
    /// Page labels.
    pub labels: Option<PageLabels>,
}

/// A Confluence page returned from the API.
#[derive(Debug, PartialEq)]
pub struct ConfluencePage {
    /// Page ID.
    pub id: String,
    /// Page title.
    pub title: String,
    /// Page type (usually "page").
    pub page_type: String,
    /// Page status (usually "current").
    pub status: String,
    /// Page URL links.
    pub links: Option<PageLinks>,
    /// Page ancestors (parent pages).
    pub ancestors: Option<Vec<ConfluencePage>>,
    /// Page labels.
    pub metadata: Option<PageMetadata>,
}

/// Response from CQL search queries.
#[derive(Debug, PartialEq)]
pub struct CqlSearchResponse {
    /// Search results.
    pub results: Vec<ConfluencePage>,
    /// Start index for pagination.
    pub start: i32,
    /// Limit for pagination.
    pub limit: i32,
    /// Total number of results.
    pub size: i32,
}

/// Individual label in a request.
#[derive(Debug, PartialEq)]
pub struct LabelRequest {
    /// Label prefix (usually "global").
    pub prefix: String,
    /// Label name.
    pub name: String,
}

/// Request body for adding labels to a page.
#[derive(Debug, PartialEq)]
pub struct AddLabelsRequest {
    /// Array of labels to add.
    pub labels: Vec<LabelRequest>,
}

/// Plain text space description.
#[derive(Debug, PartialEq)]
pub struct SpacePlainDescription {
    /// Description value.
    pub value: String,
}

/// Space description content.
#[derive(Debug, PartialEq)]
pub struct SpaceDescription {
    /// Plain text description.
    pub plain: Option<SpacePlainDescription>,
}

/// Links associated with a Confluence space.
#[derive(Debug, PartialEq)]
pub struct SpaceLinks {
    /// Web UI link.
    pub webui: Option<String>,
    /// API self link.
    pub self_link: Option<String>,
}

/// A Confluence space.
#[derive(Debug, PartialEq)]
pub struct ConfluenceSpace {
    /// Space ID (can be integer or string from the API).
    pub id: String,
    /// Space key.
    pub key: String,
    /// Space name.
    pub name: String,
    /// Space type (usually "global").
    pub space_type: String,
    /// Space status (usually "current").
    pub status: String,
    /// Space description.
    pub description: Option<SpaceDescription>,
    /// Space links.
    pub links: Option<SpaceLinks>,
}

/// Response from the spaces API.
#[derive(Debug, PartialEq)]
pub struct SpacesResponse {
    /// Array of spaces.
    pub results: Vec<ConfluenceSpace>,
    /// Start index for pagination.
    pub start: i32,
    /// Limit for pagination.
    pub limit: i32,
    /// Total number of spaces.
    pub size: i32,
}

/// Whether a string parses as an absolute URL.
pub uninterp spec fn is_parsable_url(s: Seq<char>) -> bool;

/// Relies on `url::Url::parse`: whether it succeeds depends on the string
/// alone.
#[verifier::external_body]
pub(crate) fn url_parse_ok(s: &str) -> (r: bool)
    ensures
        r == is_parsable_url(s@),
{
    url::Url::parse(s).is_ok()
}

/// The host part of a string that parses as a URL, when it has one.
pub uninterp spec fn host_of(s: Seq<char>) -> Option<Seq<char>>;

/// Relies on `url::Url::parse` and `url::Url::host_str`: the host a URL
/// names depends on the string alone.
#[verifier::external_body]
pub(crate) fn url_host(s: &str) -> (r: Option<String>)
    ensures
        r is Some <==> host_of(s@) is Some,
        r is Some ==> r->0@ == host_of(s@)->0,
{
    url::Url::parse(s).ok().and_then(|u| u.host_str().map(|h| h.to_string()))
}

/// What percent-encoding returns for a string.
pub uninterp spec fn percent_encoded(s: Seq<char>) -> Seq<char>;

/// Relies on `urlencoding::encode`: percent-encodes everything but the
/// URL-safe characters; the result depends on the string alone.
#[verifier::external_body]
pub(crate) fn url_encode(s: &str) -> (r: String)
    ensures
        r@ == percent_encoded(s@),
{
    urlencoding::encode(s).into_owned()
}

/// What standard base64 encoding returns for a byte string.
pub uninterp spec fn base64_of(bytes: Seq<u8>) -> Seq<char>;

/// Relies on base64's `Engine::encode` with the standard alphabet and
/// padding: the result depends on the bytes alone.
#[verifier::external_body]
pub(crate) fn base64_encode(bytes: &Vec<u8>) -> (r: String)
    ensures
        r@ == base64_of(bytes@),
{
    base64::Engine::encode(&base64::engine::general_purpose::STANDARD, bytes)
}

/// The basic-authentication header value for a user and token.
pub open spec fn spec_basic_auth(username: Seq<char>, api_token: Seq<char>) -> Seq<char> {
    "Basic "@ + base64_of(vstd::utf8::encode_utf8(username + ":"@ + api_token))
}

/// Check a configuration: its base URL must parse. The error carries the
/// offending URL.
pub fn validate_config(config: &ConfluenceConfig) -> (r: Result<(), ConfluenceError>)
    ensures
        r is Ok <==> is_parsable_url(config.base_url@),
        r matches Err(e) ==> (e matches ConfluenceError::Config { message } && message@
            == "Invalid base URL: "@ + config.base_url@),
{
    if url_parse_ok(config.base_url.as_str()) {
        Ok(())
    } else {
        let mut message = String::from_str("Invalid base URL: ");
        message.append(config.base_url.as_str());
        Err(ConfluenceError::Config { message })
    }
}

/// Build the basic-authentication header value from a configuration: the
/// standard encoding of "username:token".
pub fn basic_auth_value(config: &ConfluenceConfig) -> (r: String)
    ensures
        r@ == spec_basic_auth(config.username@, config.api_token@),
{
    let mut auth_string = String::new();
    auth_string.append(config.username.as_str());
    auth_string.append(":");
    auth_string.append(config.api_token.as_str());
    let bytes = auth_string.as_str().as_bytes_vec();
    let encoded = base64_encode(&bytes);
    let mut r = String::from_str("Basic ");
    r.append(encoded.as_str());
    r
}

/// The URL a CQL search goes to, with the query percent-encoded and labels
/// and ancestors expanded.
pub open spec fn spec_search_url(base: Seq<char>, cql: Seq<char>) -> Seq<char> {
    base + "/wiki/rest/api/content/search?cql="@ + percent_encoded(cql)
        + "&expand=metadata.labels,ancestors"@
}

/// Build the URL a CQL search goes to.
pub fn search_url(base_url: &str, cql: &str) -> (r: String)
    ensures
        r@ == spec_search_url(base_url@, cql@),
{
    let mut r = String::new();
    r.append(base_url);
    r.append("/wiki/rest/api/content/search?cql=");
    let encoded = url_encode(cql);
    r.append(encoded.as_str());
    r.append("&expand=metadata.labels,ancestors");
    r
}

/// The URL of a page's labels.
pub open spec fn spec_labels_url(base: Seq<char>, page_id: Seq<char>) -> Seq<char> {
    base + "/wiki/rest/api/content/"@ + page_id + "/label"@
}

/// Build the URL of a page's labels.
pub fn labels_url(base_url: &str, page_id: &str) -> (r: String)
    ensures
        r@ == spec_labels_url(base_url@, page_id@),
{
    let mut r = String::new();
    r.append(base_url);
    r.append("/wiki/rest/api/content/");
    r.append(page_id);
    r.append("/label");
    r
}

/// The URL a single label of a page is deleted at, with the label
/// percent-encoded.
pub open spec fn spec_label_delete_url(
    base: Seq<char>,
    page_id: Seq<char>,
    label: Seq<char>,
) -> Seq<char> {
    spec_labels_url(base, page_id) + "/"@ + percent_encoded(label)
}

/// Build the URL a single label of a page is deleted at.
pub fn label_delete_url(base_url: &str, page_id: &str, label: &str) -> (r: String)
    ensures
        r@ == spec_label_delete_url(base_url@, page_id@, label@),
{
    let mut r = labels_url(base_url, page_id);
    r.append("/");
    let encoded = url_encode(label);
    r.append(encoded.as_str());
    r
}

/// The URL all spaces are listed at, with descriptions expanded.
pub open spec fn spec_spaces_url(base: Seq<char>) -> Seq<char> {
    base + "/wiki/rest/api/space?expand=description.plain&limit=1000"@
}

/// Build the URL all spaces are listed at.
pub fn spaces_url(base_url: &str) -> (r: String)
    ensures
        r@ == spec_spaces_url(base_url@),
{
    let mut r = String::new();
    r.append(base_url);
    r.append("/wiki/rest/api/space?expand=description.plain&limit=1000");
    r
}

/// Build the URL connectivity is probed at.
pub fn connectivity_url(base_url: &str) -> (r: String)
    ensures
        r@ == base_url@ + "/wiki/rest/api/space"@,
{
    let mut r = String::new();
    r.append(base_url);
    r.append("/wiki/rest/api/space");
    r
}

/// The names of the labels of a label listing, in order.
pub fn label_names(labels: &PageLabels) -> (r: Vec<String>)
    ensures
        r@.len() == labels.results@.len(),
        forall|i: int|
            0 <= i < labels.results@.len() ==> (#[trigger] r@[i])@ == labels.results@[i].name@,
{
    let mut r: Vec<String> = Vec::new();
    let mut i: usize = 0;
    while i < labels.results.len()
        invariant
            i <= labels.results@.len(),
            r@.len() == i,
            forall|k: int| 0 <= k < i ==> (#[trigger] r@[k])@ == labels.results@[k].name@,
        decreases labels.results@.len() - i,
    {
        r.push(labels.results[i].name.clone());
        i = i + 1;
    }
    r
}

/// The request body that adds the given labels, each under the "global"
/// prefix.
pub fn add_labels_request(labels: &Vec<String>) -> (r: AddLabelsRequest)
    ensures
        r.labels@.len() == labels@.len(),
        forall|i: int|
            0 <= i < labels@.len() ==> (#[trigger] r.labels@[i]).name@ == labels@[i]@
                && r.labels@[i].prefix@ == "global"@,
{
    let mut out: Vec<LabelRequest> = Vec::new();
    let mut i: usize = 0;
    while i < labels.len()
        invariant
            i <= labels@.len(),
            out@.len() == i,
            forall|k: int|
                0 <= k < i ==> (#[trigger] out@[k]).name@ == labels@[k]@ && out@[k].prefix@
                    == "global"@,
        decreases labels@.len() - i,
    {
        out.push(LabelRequest { prefix: String::from_str("global"), name: labels[i].clone() });
        i = i + 1;
    }
    AddLabelsRequest { labels: out }
}

/// The error a failed CQL query surfaces: the query and the response's
/// status and text.
pub fn cql_query_error(cql: &str, status: u16, error_text: &str) -> (r: ConfluenceError)
    ensures
        r matches ConfluenceError::CqlQuery { query, message } && query@ == cql@ && message@
            == "HTTP "@ + crate::errors::dec_str(status as nat) + ": "@ + error_text@,
{
    let mut message = String::from_str("HTTP ");
    let status_str = crate::errors::u16_to_string(status);
    message.append(status_str.as_str());
    message.append(": ");
    message.append(error_text);
    ConfluenceError::CqlQuery { query: cql.to_owned(), message }
}

/// The error a failed label addition surfaces.
pub fn add_labels_error(page_id: &str, status: u16, error_text: &str) -> (r: ConfluenceError)
    ensures
        r matches ConfluenceError::LabelOperation { message } && message@
            == "Failed to add labels to page "@ + page_id@ + ": HTTP "@ + crate::errors::dec_str(
            status as nat,
        ) + ": "@ + error_text@,
{
    let mut message = String::from_str("Failed to add labels to page ");
    message.append(page_id);
    message.append(": HTTP ");
    let status_str = crate::errors::u16_to_string(status);
    message.append(status_str.as_str());
    message.append(": ");
    message.append(error_text);
    ConfluenceError::LabelOperation { message }
}

/// The error a failed label removal surfaces.
pub fn remove_label_error(label: &str, page_id: &str, status: u16, error_text: &str) -> (r:
    ConfluenceError)
    ensures
        r matches ConfluenceError::LabelOperation { message } && message@
            == "Failed to remove label '"@ + label@ + "' from page "@ + page_id@ + ": HTTP "@
            + crate::errors::dec_str(status as nat) + ": "@ + error_text@,
{
    let mut message = String::from_str("Failed to remove label '");
    message.append(label);
    message.append("' from page ");
    message.append(page_id);
    message.append(": HTTP ");
    let status_str = crate::errors::u16_to_string(status);
    message.append(status_str.as_str());
    message.append(": ");
    message.append(error_text);
    ConfluenceError::LabelOperation { message }
}

} // verus!
