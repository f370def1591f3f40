use warp_minio::auth::{AuthType, SessionReply};
use warp_minio::config::default_config::DefaultConfig;
use warp_minio::config::power_config::PowerConfig;
use warp_minio::config::warp_config::WarpConfig;
use warp_minio::headers::Headers;
use warp_minio::minio::minio_parser::{
    get_generate_link_by_config_key_and_object_key, presigned_link, BucketCache, LinkError,
};
use warp_minio::minio::minio_pool::MinioPool;
use warp_minio::proxy::{
    bad_request, content_disposition, content_type_from, content_type_gives_way, copy_of,
    link_resolved, parse_path, process, re_parse_content_type, rewrite_headers, session_answered,
    upstream_answered, Step, Task,
};
use warp_minio::string_map::StringMap;

fn list(fields: &[(&str, &str)]) -> Headers {
    let mut headers = Headers::new();
    for (name, value) in fields {
        headers.append(name.to_string(), value.to_string());
    }
    headers
}

fn fields(headers: &Headers) -> Vec<(String, String)> {
    (0..headers.len())
        .map(|i| (headers.name_at(i).clone(), headers.value_at(i).clone()))
        .collect()
}

fn query(pairs: &[(&str, &str)]) -> StringMap<String> {
    let mut params = StringMap::new();
    for (name, value) in pairs {
        params.insert(name.to_string(), value.to_string());
    }
    params
}

fn config(auth: Option<AuthType>, rewriting: bool) -> WarpConfig {
    let mut power = StringMap::new();
    power.insert(
        "t1".to_string(),
        PowerConfig {
            bucket_name: Some("bkt".to_string()),
            redis_config: None,
            minio_config: None,
            convert: None,
        },
    );
    WarpConfig {
        server_port: None,
        auth_type: auth,
        match_prefix: None,
        parsing_content_type: rewriting,
        power: Some(power),
        default: DefaultConfig::default(),
    }
}

fn task(object_key: &str, filename: Option<&str>) -> Task {
    Task {
        config_key: "t1".to_string(),
        object_key: object_key.to_string(),
        filename: filename.map(|name| name.to_string()),
        range: None,
    }
}

fn pair(a: &str, b: &str) -> Option<(String, String)> {
    Some((a.to_string(), b.to_string()))
}

fn reply_of(step: &Step) -> Option<(u16, String)> {
    match step {
        Step::Reply(reply) => Some((reply.status, reply.body.clone())),
        _ => None,
    }
}

#[test]
fn parse_path_splits_tenant_and_object() {
    assert_eq!(parse_path("/minio/t1/photo.jpg", "/minio"), pair("t1", "photo.jpg"));
    assert_eq!(parse_path("/minio/t1/a/b/c.txt", "/minio"), pair("t1", "a/b/c.txt"));
    assert_eq!(parse_path("/minio///t1/x", "/minio"), pair("t1", "x"));
    assert_eq!(parse_path("/minio/t1//x", "/minio"), pair("t1", "/x"));
}

#[test]
fn parse_path_without_object_or_tenant() {
    assert_eq!(parse_path("/minio/t1", "/minio"), pair("t1", ""));
    assert_eq!(parse_path("/minio/t1/", "/minio"), pair("t1", ""));
    assert_eq!(parse_path("/minio", "/minio"), pair("", ""));
    assert_eq!(parse_path("/minio/", "/minio"), pair("", ""));
    assert_eq!(parse_path("/miniot1/x", "/minio"), pair("t1", "x"));
    assert_eq!(parse_path("anything/x", ""), pair("anything", "x"));
}

#[test]
fn parse_path_outside_the_prefix() {
    assert_eq!(parse_path("/other/t1/photo.jpg", "/minio"), None);
    assert_eq!(parse_path("/mini", "/minio"), None);
    assert_eq!(parse_path("", "/minio"), None);
    assert_eq!(parse_path("/Minio/t1/x", "/minio"), None);
}

#[test]
fn path_outside_the_prefix_is_a_bad_request() {
    let c = config(Some(AuthType::Bearer("auth:token:".to_string())), true);
    let headers = list(&[("authorization", "Bearer abc123")]);
    let step = process(&c, "/other/t1/photo.jpg", &query(&[]), &headers);
    assert_eq!(
        reply_of(&step),
        Some((400, "URI does not start with the expected prefix".to_string()))
    );
    assert_eq!(bad_request().status, 400);
}

#[test]
fn request_without_policy_goes_on_to_the_link() {
    let c = config(None, false);
    let step = process(&c, "/minio/t1/a/b.png", &query(&[("filename", "x.txt")]), &Headers::new());
    match step {
        Step::ResolveLink(task) => {
            assert_eq!(task.config_key, "t1");
            assert_eq!(task.object_key, "a/b.png");
            assert_eq!(task.filename, Some("x.txt".to_string()));
            assert_eq!(task.range, None);
        },
        other => panic!("unexpected step {:?}", other),
    }
}

#[test]
fn range_header_is_carried_unchanged() {
    let c = config(None, false);
    let headers = list(&[("accept", "*/*"), ("Range", "bytes=0-99")]);
    match process(&c, "/minio/t1/o", &query(&[]), &headers) {
        Step::ResolveLink(task) => {
            assert_eq!(task.range, Some("bytes=0-99".to_string()));
            match link_resolved(task, Ok("http://s3/o".to_string())) {
                Step::Fetch { task, url } => {
                    assert_eq!(url, "http://s3/o");
                    assert_eq!(task.range, Some("bytes=0-99".to_string()));
                },
                other => panic!("unexpected step {:?}", other),
            }
        },
        other => panic!("unexpected step {:?}", other),
    }
}

#[test]
fn custom_prefix_is_honoured() {
    let mut c = config(None, false);
    c.match_prefix = Some("/files".to_string());
    assert!(matches!(process(&c, "/files/t1/o", &query(&[]), &Headers::new()), Step::ResolveLink(_)));
    let step = process(&c, "/minio/t1/o", &query(&[]), &Headers::new());
    assert_eq!(reply_of(&step).map(|r| r.0), Some(400));
}

#[test]
fn basic_policy_turns_away_or_lets_pass() {
    let c = config(Some(AuthType::Basic("x-key".to_string(), "v".to_string())), false);
    let denied = process(&c, "/minio/t1/o", &query(&[]), &list(&[("x-key", "w")]));
    assert_eq!(reply_of(&denied), Some((401, "{\"error\": \"Unauthorized\"}".to_string())));
    let passed = process(&c, "/minio/t1/o", &query(&[]), &list(&[("x-key", "v")]));
    assert!(matches!(passed, Step::ResolveLink(_)));
}

#[test]
fn session_answer_decides_a_lookup() {
    let passed = session_answered(task("o", None), SessionReply::Present);
    assert!(matches!(passed, Step::ResolveLink(_)));
    for reply in [SessionReply::Absent, SessionReply::Failed] {
        let denied = session_answered(task("o", None), reply);
        assert_eq!(reply_of(&denied), Some((401, "{\"error\": \"Unauthorized\"}".to_string())));
    }
}

#[test]
fn failed_link_is_a_config_error() {
    for error in [LinkError::BackendUnavailable, LinkError::LinkGenerationFailed] {
        let step = link_resolved(task("o", None), Err(error));
        assert_eq!(reply_of(&step), Some((500, "{\"error\": \"Config error\"}".to_string())));
    }
}

#[test]
fn failed_upstream_is_a_gateway_error() {
    let step = upstream_answered(&config(None, true), &task("o", None), None);
    assert_eq!(reply_of(&step), Some((502, "{\"error\": \"Bad gateway\"}".to_string())));
}

#[test]
fn octet_stream_gives_way_to_the_inferred_type() {
    let upstream = list(&[("Content-Type", "application/octet-stream"), ("etag", "1")]);
    assert_eq!(re_parse_content_type(&upstream, "report.pdf"), "application/pdf");
    match upstream_answered(&config(None, true), &task("report.pdf", None), Some((200, upstream))) {
        Step::Stream { status, headers } => {
            assert_eq!(status, 200);
            assert_eq!(headers.get("content-type"), Some(&"application/pdf".to_string()));
            assert_eq!(headers.get("etag"), Some(&"1".to_string()));
            assert_eq!(headers.len(), 2);
        },
        other => panic!("unexpected step {:?}", other),
    }
}

#[test]
fn rewriting_disabled_leaves_the_headers_unchanged() {
    let upstream = list(&[("Content-Type", "application/octet-stream"), ("etag", "1")]);
    match upstream_answered(&config(None, false), &task("report.pdf", None), Some((206, upstream))) {
        Step::Stream { status, headers } => {
            assert_eq!(status, 206);
            assert_eq!(
                fields(&headers),
                vec![
                    ("Content-Type".to_string(), "application/octet-stream".to_string()),
                    ("etag".to_string(), "1".to_string()),
                ]
            );
        },
        other => panic!("unexpected step {:?}", other),
    }
}

#[test]
fn missing_content_type_is_inferred() {
    let mut headers = list(&[("etag", "1")]);
    rewrite_headers(&mut headers, true, &task("photo.jpg", None));
    assert_eq!(headers.get("Content-Type"), Some(&"image/jpeg".to_string()));
    assert_eq!(re_parse_content_type(&Headers::new(), "noextension"), "application/octet-stream");
    assert_eq!(re_parse_content_type(&Headers::new(), "a.b/c.TXT"), "text/plain");
}

#[test]
fn specific_content_type_is_left_untouched() {
    let mut headers = list(&[("content-type", "text/csv"), ("etag", "1")]);
    rewrite_headers(&mut headers, true, &task("report.pdf", None));
    assert_eq!(
        fields(&headers),
        vec![
            ("content-type".to_string(), "text/csv".to_string()),
            ("etag".to_string(), "1".to_string()),
        ]
    );
    assert_eq!(re_parse_content_type(&list(&[("content-type", "text/csv")]), "report.pdf"), "text/csv");
}

#[test]
fn content_type_choice_takes_the_inference_as_given() {
    let octet = "application/octet-stream".to_string();
    let csv = "text/csv".to_string();
    assert_eq!(content_type_from(Some(&octet), "x/y".to_string()), "x/y");
    assert_eq!(content_type_from(None, "x/y".to_string()), "x/y");
    assert_eq!(content_type_from(Some(&csv), "x/y".to_string()), "text/csv");
    assert!(content_type_gives_way(None));
    assert!(content_type_gives_way(Some(&octet)));
    assert!(!content_type_gives_way(Some(&csv)));
    assert!(!content_type_gives_way(Some(&"Application/Octet-Stream".to_string())));
}

#[test]
fn filename_sets_the_disposition() {
    assert_eq!(content_disposition("x.txt"), "attachment; filename=\"x.txt\"");
    assert_eq!(content_disposition(""), "attachment; filename=\"\"");
    let mut headers = list(&[("Content-Disposition", "inline"), ("etag", "1")]);
    rewrite_headers(&mut headers, false, &task("o", Some("x.txt")));
    assert_eq!(
        fields(&headers),
        vec![
            ("etag".to_string(), "1".to_string()),
            ("Content-Disposition".to_string(), "attachment; filename=\"x.txt\"".to_string()),
        ]
    );
}

#[test]
fn without_filename_there_is_no_disposition() {
    let mut headers = list(&[("etag", "1")]);
    rewrite_headers(&mut headers, true, &task("o.bin", None));
    assert_eq!(headers.get("Content-Disposition"), None);
    let mut upstream = list(&[("content-disposition", "inline")]);
    rewrite_headers(&mut upstream, false, &task("o", None));
    assert_eq!(upstream.get("Content-Disposition"), Some(&"inline".to_string()));
}

#[test]
fn copy_of_copies() {
    let s = "v".to_string();
    assert_eq!(copy_of(Some(&s)), Some("v".to_string()));
    assert_eq!(copy_of(None), None);
}

fn serve(path: &str, authorization: &str, store: &[&str]) -> (u16, Option<String>) {
    let c = config(Some(AuthType::Bearer("auth:token:".to_string())), true);
    let mut cache = BucketCache::new();
    let mut pools: MinioPool<&str> = MinioPool::new();
    pools.insert_pool("t1".to_string(), vec!["http://s3.local"]);
    let headers = list(&[("Authorization", authorization)]);
    let mut step = process(&c, path, &query(&[]), &headers);
    loop {
        step = match step {
            Step::Reply(reply) => return (reply.status, Some(reply.body)),
            Step::Stream { status, .. } => return (status, None),
            Step::LookupSession { task, key } => {
                let reply = if store.contains(&key.as_str()) {
                    SessionReply::Present
                } else {
                    SessionReply::Absent
                };
                session_answered(task, reply)
            },
            Step::ResolveLink(task) => {
                let link = get_generate_link_by_config_key_and_object_key(
                    &mut cache,
                    &c,
                    &mut pools,
                    &task.config_key,
                    &task.object_key,
                )
                .and_then(|request| {
                    let base = pools.pool_at(request.target).expect("the chosen pool");
                    let signed: Result<String, ()> =
                        Ok(format!("{}/{}/{}?sig", base, request.bucket, request.object_key));
                    presigned_link(signed)
                });
                link_resolved(task, link)
            },
            Step::Fetch { task, url } => {
                assert_eq!(url, "http://s3.local/bkt/photo.jpg?sig");
                let upstream = list(&[("Content-Type", "application/octet-stream")]);
                upstream_answered(&c, &task, Some((200, upstream)))
            },
        };
    }
}

#[test]
fn end_to_end_with_a_valid_token() {
    let store = ["auth:token:abc123"];
    assert_eq!(serve("/minio/t1/photo.jpg", "Bearer abc123", &store), (200, None));
}

#[test]
fn end_to_end_with_a_wrong_token() {
    let store = ["auth:token:abc123"];
    assert_eq!(
        serve("/minio/t1/photo.jpg", "Bearer wrong", &store),
        (401, Some("{\"error\": \"Unauthorized\"}".to_string()))
    );
}

#[test]
fn end_to_end_outside_the_prefix() {
    let store = ["auth:token:abc123"];
    let (status, _) = serve("/other/t1/photo.jpg", "Bearer abc123", &store);
    assert_eq!(status, 400);
}
