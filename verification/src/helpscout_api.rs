//! Requests to the article search of the help desk.
//!
//! The service of this module knows where the search lives and how a request
//! is authorized; it describes the request and leaves sending it to the
//! transport.

use vstd::prelude::*;
use vstd::string::*;

verus! {

/// A request to send: where it goes, its query parameters and its headers,
/// each as pairs of name and value.
#[derive(Debug, PartialEq, Eq)]
pub struct SearchRequest {
    pub url: String,
    pub parameters: Vec<(String, String)>,
    pub headers: Vec<(String, String)>,
}

/// Mathematical value of a [`SearchRequest`].
pub struct SearchRequestView {
    pub url: Seq<char>,
    pub parameters: Seq<(Seq<char>, Seq<char>)>,
    pub headers: Seq<(Seq<char>, Seq<char>)>,
}

impl View for SearchRequest {
    type V = SearchRequestView;

    open spec fn view(&self) -> SearchRequestView {
        SearchRequestView {
            url: self.url@,
            parameters: self.parameters.deep_view(),
            headers: self.headers.deep_view(),
        }
    }
}

/// The request that searches the articles under `base_url` for `query` on
/// behalf of the holder of `api_key`.
pub open spec fn search_request(base_url: Seq<char>, api_key: Seq<char>, query: Seq<char>) -> SearchRequestView {
    SearchRequestView {
        url: base_url + "/search/articles"@,
        parameters: seq![("query"@, query)],
        headers: seq![("Authorization"@, "Bearer "@ + api_key)],
    }
}

/// Access to the article search of the help desk.
pub struct ExternalApiService {
    base_url: String,
    api_key: String,
}

impl ExternalApiService {
    /// The address under which the service is reached.
    pub closed spec fn base_url(&self) -> Seq<char> {
        self.base_url@
    }

    /// The key that authorizes the requests.
    pub closed spec fn api_key(&self) -> Seq<char> {
        self.api_key@
    }

    /// Access to the public service with the given key.
    pub fn new(api_key: String) -> (service: ExternalApiService)
        ensures
            service.base_url() == "https://docsapi.helpscout.net/v1"@,
            service.api_key() == api_key@,
    {
        ExternalApiService {
            base_url: String::from_str("https://docsapi.helpscout.net/v1"),
            api_key,
        }
    }

    /// Describes the request that searches the articles for `query`.
    pub fn search_articles(&self, query: &str) -> (request: SearchRequest)
        ensures
            request@ == search_request(self.base_url(), self.api_key(), query@),
    {
        let url = self.base_url.clone().concat("/search/articles");
        let mut parameters: Vec<(String, String)> = Vec::new();
        parameters.push((String::from_str("query"), String::from_str(query)));
        let mut headers: Vec<(String, String)> = Vec::new();
        headers.push(
            (
                String::from_str("Authorization"),
                String::from_str("Bearer ").concat(self.api_key.as_str()),
            ),
        );
        let request = SearchRequest { url, parameters, headers };
        assert(request@.parameters =~= seq![("query"@, query@)]);
        assert(request@.headers =~= seq![("Authorization"@, "Bearer "@ + self.api_key@)]);
        request
    }
}

} // verus!
