//! Request and response transformation: headers, paths, query parameters and
//! status codes.

use actix_web::http::header::{HeaderMap, HeaderName, HeaderValue};
use kairos_rs::middleware::transform::{
    HeaderTransformation, PathTransformation, QueryTransformation, RequestTransformation,
    RequestTransformer, ResponseTransformation, ResponseTransformer, StatusCodeMapping,
    TransformAction,
};

fn header_rule(action: TransformAction, name: &str, value: Option<&str>) -> HeaderTransformation {
    HeaderTransformation {
        action,
        name: name.to_string(),
        value: value.map(|v| v.to_string()),
        pattern: None,
        replacement: None,
    }
}

fn query_rule(action: TransformAction, name: &str, value: Option<&str>) -> QueryTransformation {
    QueryTransformation { action, name: name.to_string(), value: value.map(|v| v.to_string()) }
}

fn headers_of(pairs: &[(&'static str, &'static str)]) -> HeaderMap {
    let mut headers = HeaderMap::new();
    for (n, v) in pairs {
        headers.insert(HeaderName::from_static(n), HeaderValue::from_static(v));
    }
    headers
}

fn header_text(hs: &HeaderMap, name: &str) -> Option<String> {
    hs.get(name).map(|v| v.to_str().unwrap().to_string())
}

fn param<'a>(ps: &'a [(String, String)], name: &str) -> Option<&'a str> {
    ps.iter().find(|(n, _)| n == name).map(|(_, v)| v.as_str())
}

fn path_only(pattern: &str, replacement: &str) -> RequestTransformer {
    RequestTransformer::new(RequestTransformation {
        headers: vec![],
        path: Some(PathTransformation {
            pattern: pattern.to_string(),
            replacement: replacement.to_string(),
        }),
        query_params: vec![],
    })
}

fn query_only(rules: Vec<QueryTransformation>) -> RequestTransformer {
    RequestTransformer::new(RequestTransformation { headers: vec![], path: None, query_params: rules })
}

fn headers_only(rules: Vec<HeaderTransformation>) -> RequestTransformer {
    RequestTransformer::new(RequestTransformation { headers: rules, path: None, query_params: vec![] })
}

#[test]
fn test_header_transformation_add() {
    let transformer =
        headers_only(vec![header_rule(TransformAction::Add, "X-Custom", Some("test-value"))]);
    let mut headers = HeaderMap::new();
    transformer.transform_headers(&mut headers);
    assert_eq!(header_text(&headers, "x-custom").unwrap(), "test-value");
}

#[test]
fn test_header_transformation_remove() {
    let transformer = headers_only(vec![header_rule(TransformAction::Remove, "Authorization", None)]);
    let mut headers = headers_of(&[("authorization", "Bearer token")]);
    transformer.transform_headers(&mut headers);
    assert!(headers.get("authorization").is_none());
}

#[test]
fn test_path_transformation() {
    let transformer = path_only(r"^/api/v1/(.+)$", "/$1");
    assert_eq!(transformer.transform_path("/api/v1/users/123"), "/users/123");
}

#[test]
fn test_query_param_transformation() {
    let transformer = query_only(vec![
        query_rule(TransformAction::Add, "api_key", Some("secret123")),
        query_rule(TransformAction::Remove, "debug", None),
    ]);
    let mut params = vec![("debug".to_string(), "true".to_string())];
    transformer.transform_query_params(&mut params);
    assert!(param(&params, "api_key").is_some());
    assert!(param(&params, "debug").is_none());
}

#[test]
fn test_status_code_mapping() {
    let transformer = ResponseTransformer::new(ResponseTransformation {
        headers: vec![],
        status_code_mappings: vec![StatusCodeMapping { from: 404, to: 200, condition: None }],
    });
    assert_eq!(transformer.transform_status_code(404, "/test"), 200);
}

#[test]
fn test_request_header_add() {
    let transformer = headers_only(vec![
        header_rule(TransformAction::Add, "X-Gateway", Some("kairos-rs")),
        header_rule(TransformAction::Add, "X-Request-ID", Some("123456")),
    ]);
    let mut headers = HeaderMap::new();
    transformer.transform_headers(&mut headers);
    assert_eq!(header_text(&headers, "x-gateway").unwrap(), "kairos-rs");
    assert_eq!(header_text(&headers, "x-request-id").unwrap(), "123456");
}

#[test]
fn test_request_header_set_override() {
    let transformer =
        headers_only(vec![header_rule(TransformAction::SetValue, "Host", Some("backend.local"))]);
    let mut headers = headers_of(&[("host", "original.host")]);
    transformer.transform_headers(&mut headers);
    assert_eq!(header_text(&headers, "host").unwrap(), "backend.local");
    assert_eq!(headers.len(), 1);
}

#[test]
fn test_request_header_add_no_override() {
    let transformer =
        headers_only(vec![header_rule(TransformAction::Add, "Host", Some("backend.local"))]);
    let mut headers = headers_of(&[("host", "original.host")]);
    transformer.transform_headers(&mut headers);
    assert_eq!(header_text(&headers, "host").unwrap(), "original.host");
}

#[test]
fn test_request_header_remove() {
    let transformer = headers_only(vec![
        header_rule(TransformAction::Remove, "Authorization", None),
        header_rule(TransformAction::Remove, "Cookie", None),
    ]);
    let mut headers = headers_of(&[
        ("authorization", "Bearer token"),
        ("cookie", "session=abc123"),
        ("content-type", "application/json"),
    ]);
    transformer.transform_headers(&mut headers);
    assert!(headers.get("authorization").is_none());
    assert!(headers.get("cookie").is_none());
    assert!(headers.get("content-type").is_some());
}

#[test]
fn test_request_header_replace_regex() {
    let transformer = headers_only(vec![HeaderTransformation {
        action: TransformAction::Replace,
        name: "User-Agent".to_string(),
        value: None,
        pattern: Some(r"Mozilla/(\d+\.\d+)".to_string()),
        replacement: Some("KairosGateway/$1".to_string()),
    }]);
    let mut headers = headers_of(&[("user-agent", "Mozilla/5.0 (compatible)")]);
    transformer.transform_headers(&mut headers);
    assert_eq!(header_text(&headers, "user-agent").unwrap(), "KairosGateway/5.0 (compatible)");
}

#[test]
fn test_header_rules_skip_invalid_names_and_values() {
    let transformer = headers_only(vec![
        header_rule(TransformAction::Add, "Bad Name", Some("v")),
        header_rule(TransformAction::SetValue, "X-Ok", Some("line\nbreak")),
        header_rule(TransformAction::Add, "X-Missing-Value", None),
    ]);
    let mut headers = headers_of(&[("accept", "*/*")]);
    transformer.transform_headers(&mut headers);
    assert_eq!(headers.len(), 1);
    assert_eq!(header_text(&headers, "accept").unwrap(), "*/*");
    assert!(headers.get("x-ok").is_none());
    assert!(headers.get("x-missing-value").is_none());
}

#[test]
fn test_path_rewrite_simple() {
    let transformer = path_only(r"^/api/v1/(.+)$", "/v2/$1");
    assert_eq!(transformer.transform_path("/api/v1/users"), "/v2/users");
    assert_eq!(transformer.transform_path("/api/v1/posts/123"), "/v2/posts/123");
    assert_eq!(transformer.transform_path("/other/path"), "/other/path");
}

#[test]
fn test_path_rewrite_remove_prefix() {
    let transformer = path_only(r"^/gateway/(.+)$", "/$1");
    assert_eq!(transformer.transform_path("/gateway/api/users"), "/api/users");
    assert_eq!(transformer.transform_path("/gateway/health"), "/health");
}

#[test]
fn test_path_rewrite_add_prefix() {
    let transformer = path_only(r"^/(.+)$", "/backend/$1");
    assert_eq!(transformer.transform_path("/users"), "/backend/users");
    assert_eq!(transformer.transform_path("/api/posts"), "/backend/api/posts");
}

#[test]
fn test_path_rewrite_complex_pattern() {
    let transformer = path_only(r"^/api/v(\d+)/(\w+)/(.+)$", "/v$1/api/$2/$3");
    assert_eq!(transformer.transform_path("/api/v1/users/123"), "/v1/api/users/123");
    assert_eq!(transformer.transform_path("/api/v2/posts/abc"), "/v2/api/posts/abc");
}

#[test]
fn test_path_rewrite_invalid_pattern_keeps_path() {
    let transformer = path_only(r"^/api/(", "/x");
    assert_eq!(transformer.transform_path("/api/users"), "/api/users");
    let none = RequestTransformer::new(RequestTransformation {
        headers: vec![],
        path: None,
        query_params: vec![],
    });
    assert_eq!(none.transform_path("/api/users"), "/api/users");
}

#[test]
fn test_query_param_add() {
    let transformer = query_only(vec![
        query_rule(TransformAction::Add, "api_key", Some("secret123")),
        query_rule(TransformAction::Add, "version", Some("v1")),
    ]);
    let mut params = Vec::new();
    transformer.transform_query_params(&mut params);
    assert_eq!(param(&params, "api_key").unwrap(), "secret123");
    assert_eq!(param(&params, "version").unwrap(), "v1");
}

#[test]
fn test_query_param_add_keeps_existing() {
    let transformer = query_only(vec![query_rule(TransformAction::Add, "v", Some("new"))]);
    let mut params = vec![("v".to_string(), "old".to_string())];
    transformer.transform_query_params(&mut params);
    assert_eq!(params, vec![("v".to_string(), "old".to_string())]);
}

#[test]
fn test_query_param_set() {
    let transformer =
        query_only(vec![query_rule(TransformAction::SetValue, "format", Some("json"))]);
    let mut params = vec![("format".to_string(), "xml".to_string())];
    transformer.transform_query_params(&mut params);
    assert_eq!(param(&params, "format").unwrap(), "json");
}

#[test]
fn test_query_param_remove() {
    let transformer = query_only(vec![
        query_rule(TransformAction::Remove, "debug", None),
        query_rule(TransformAction::Remove, "internal", None),
    ]);
    let mut params = vec![
        ("debug".to_string(), "true".to_string()),
        ("internal".to_string(), "yes".to_string()),
        ("user_id".to_string(), "123".to_string()),
    ];
    transformer.transform_query_params(&mut params);
    assert!(param(&params, "debug").is_none());
    assert!(param(&params, "internal").is_none());
    assert!(param(&params, "user_id").is_some());
}

#[test]
fn test_response_header_transformation() {
    let transformer = ResponseTransformer::new(ResponseTransformation {
        headers: vec![
            header_rule(TransformAction::Add, "X-Powered-By", Some("Kairos Gateway")),
            header_rule(TransformAction::Remove, "Server", None),
        ],
        status_code_mappings: vec![],
    });
    let mut headers = headers_of(&[("server", "Apache/2.4"), ("content-type", "application/json")]);
    transformer.transform_headers(&mut headers);
    assert_eq!(header_text(&headers, "x-powered-by").unwrap(), "Kairos Gateway");
    assert!(headers.get("server").is_none());
    assert!(headers.get("content-type").is_some());
}

#[test]
fn test_response_status_code_mapping() {
    let transformer = ResponseTransformer::new(ResponseTransformation {
        headers: vec![],
        status_code_mappings: vec![
            StatusCodeMapping { from: 404, to: 200, condition: None },
            StatusCodeMapping { from: 502, to: 503, condition: None },
        ],
    });
    assert_eq!(transformer.transform_status_code(404, "/test"), 200);
    assert_eq!(transformer.transform_status_code(502, "/test"), 503);
    assert_eq!(transformer.transform_status_code(200, "/test"), 200);
}

#[test]
fn test_combined_request_transformation() {
    let transformer = RequestTransformer::new(RequestTransformation {
        headers: vec![
            header_rule(TransformAction::Add, "X-Forwarded-By", Some("kairos-gateway")),
            header_rule(TransformAction::Remove, "Cookie", None),
        ],
        path: Some(PathTransformation {
            pattern: r"^/public/(.+)$".to_string(),
            replacement: "/api/v1/$1".to_string(),
        }),
        query_params: vec![query_rule(TransformAction::Add, "source", Some("gateway"))],
    });

    let mut headers = headers_of(&[("cookie", "session=abc")]);
    transformer.transform_headers(&mut headers);
    assert!(headers.get("x-forwarded-by").is_some());
    assert!(headers.get("cookie").is_none());

    assert_eq!(transformer.transform_path("/public/users"), "/api/v1/users");

    let mut params = Vec::new();
    transformer.transform_query_params(&mut params);
    assert_eq!(param(&params, "source").unwrap(), "gateway");
}

#[test]
fn test_set_replaces_every_value_and_remove_drops_all() {
    let mut headers = HeaderMap::new();
    headers.append(HeaderName::from_static("cookie"), HeaderValue::from_static("a=1"));
    headers.append(HeaderName::from_static("cookie"), HeaderValue::from_static("b=2"));
    headers.append(HeaderName::from_static("accept"), HeaderValue::from_static("*/*"));
    headers.append(HeaderName::from_static("accept"), HeaderValue::from_static("text/html"));
    let transformer = headers_only(vec![
        header_rule(TransformAction::SetValue, "Cookie", Some("c=3")),
        header_rule(TransformAction::Remove, "ACCEPT", None),
    ]);
    transformer.transform_headers(&mut headers);
    assert_eq!(headers.get_all("cookie").count(), 1);
    assert_eq!(header_text(&headers, "cookie").unwrap(), "c=3");
    assert_eq!(headers.get_all("accept").count(), 0);
    assert_eq!(headers.len(), 1);
}

#[test]
fn test_replace_reads_first_value_and_skips_missing_header() {
    let mut headers = HeaderMap::new();
    headers.append(HeaderName::from_static("x-tag"), HeaderValue::from_static("old-1"));
    headers.append(HeaderName::from_static("x-tag"), HeaderValue::from_static("old-2"));
    let transformer = headers_only(vec![
        HeaderTransformation {
            action: TransformAction::Replace,
            name: "X-Tag".to_string(),
            value: None,
            pattern: Some("old".to_string()),
            replacement: Some("new".to_string()),
        },
        HeaderTransformation {
            action: TransformAction::Replace,
            name: "X-Absent".to_string(),
            value: None,
            pattern: Some(".*".to_string()),
            replacement: Some("set".to_string()),
        },
    ]);
    transformer.transform_headers(&mut headers);
    assert_eq!(header_text(&headers, "x-tag").unwrap(), "new-1");
    assert_eq!(headers.get_all("x-tag").count(), 1);
    assert!(headers.get("x-absent").is_none());
}
