use backend::helpscout_api::{ExternalApiService, SearchRequest};

fn pair(name: &str, value: &str) -> (String, String) {
    (name.to_string(), value.to_string())
}

#[test]
fn search_request_names_url_query_and_key() {
    let service = ExternalApiService::new("k-123".to_string());
    assert_eq!(
        service.search_articles("reset password"),
        SearchRequest {
            url: "https://docsapi.helpscout.net/v1/search/articles".to_string(),
            parameters: vec![pair("query", "reset password")],
            headers: vec![pair("Authorization", "Bearer k-123")],
        }
    );
}

#[test]
fn search_request_passes_the_query_on_unchanged() {
    let service = ExternalApiService::new(String::new());
    let request = service.search_articles("a&b=c d?");
    assert_eq!(request.parameters, vec![pair("query", "a&b=c d?")]);
    assert_eq!(request.headers, vec![pair("Authorization", "Bearer ")]);
}

#[test]
fn search_requests_of_one_service_share_url_and_key() {
    let service = ExternalApiService::new("key".to_string());
    let first = service.search_articles("one");
    let second = service.search_articles("");
    assert_eq!(first.url, second.url);
    assert_eq!(first.headers, second.headers);
    assert_eq!(second.parameters, vec![pair("query", "")]);
}
