//! Link resolution, fetch classification, credentials and reply decoding.

use baidu_direct_link::config::OpenApiConfig;
use baidu_direct_link::credential::{
    interpret_refresh_reply, plan_obtain, refresh_request_url, CredentialError, CredentialSource,
    ObtainPlan, RawTokenReply, RefreshReason,
};
use baidu_direct_link::metadata::{
    dir_list_url, file_metas_url, interpret_dir_listing, interpret_file_listing,
    interpret_file_metas, interpret_id_listing, open_download_url, recent_list_url, MetaError,
    RawListedItem, RawMetaItem,
};
use baidu_direct_link::resolve::{
    check_batch_input, check_fetch_status, finish_link_batch, interpret_open_download,
    prepare_direct_link, resolve_probe, BatchError, FetchError, RawLinkItem, RawOpenDownload,
    RawUrlItem, ResolveError, ResolvedLink,
};
use baidu_direct_link::share::{fsid_from_value, FileItem, IdParseError, IdValue};

fn link_item(dlink: &str, filename: &str, isdir: i32) -> RawLinkItem {
    RawLinkItem {
        dlink: dlink.to_string(),
        filename: filename.to_string(),
        path: format!("/x/{}", filename),
        isdir,
    }
}

#[test]
fn directory_identifier_is_rejected_before_any_probe() {
    let items = vec![link_item("https://d.example/f", "folder", 1)];
    let r = prepare_direct_link(42, 0, &items, "tok");
    assert_eq!(r.err(), Some(ResolveError::IsDirectory(42)));
}

#[test]
fn empty_intermediate_link_is_rejected() {
    let items = vec![link_item("", "file.bin", 0)];
    let r = prepare_direct_link(42, 0, &items, "tok");
    assert_eq!(r.err(), Some(ResolveError::EmptyLink));
}

#[test]
fn backend_code_and_missing_item_are_distinct_failures() {
    let items = vec![link_item("https://d.example/f", "file.bin", 0)];
    assert_eq!(
        prepare_direct_link(42, -6, &items, "tok").err(),
        Some(ResolveError::BackendError(-6))
    );
    assert_eq!(
        prepare_direct_link(42, 0, &vec![], "tok").err(),
        Some(ResolveError::NotFound)
    );
}

#[test]
fn probe_url_appends_encoded_credential() {
    let items = vec![link_item("https://d.example/f", "file.bin", 0)];
    let probe = prepare_direct_link(42, 0, &items, "a b+c").expect("resolvable");
    assert_eq!(probe.url(), "https://d.example/f?access_token=a%20b%2Bc");
    assert_eq!(probe.filename(), "file.bin");
}

#[test]
fn probe_follows_one_redirect_hop() {
    let items = vec![link_item("https://d.example/f", "file.bin", 0)];
    let probe = prepare_direct_link(42, 0, &items, "tok").expect("resolvable");
    let r = resolve_probe(probe, 302, Some("https://real.example/f".to_string()))
        .expect("redirect resolves");
    assert_eq!(r.filename, "file.bin");
    assert_eq!(r.url, "https://real.example/f");

    // Any redirect status hands over the location, not just 302.
    let items = vec![link_item("https://d.example/f", "file.bin", 0)];
    let probe = prepare_direct_link(42, 0, &items, "tok").expect("resolvable");
    let r = resolve_probe(probe, 301, Some("https://moved.example/f".to_string()))
        .expect("redirect resolves");
    assert_eq!(r.url, "https://moved.example/f");

    let items = vec![link_item("https://d.example/f", "file.bin", 0)];
    let probe = prepare_direct_link(42, 0, &items, "tok").expect("resolvable");
    let r = resolve_probe(probe, 301, None);
    assert_eq!(r.err(), Some(ResolveError::MissingLocation));
}

#[test]
fn probe_without_location_fails_and_other_statuses_keep_url() {
    let items = vec![link_item("https://d.example/f", "file.bin", 0)];
    let probe = prepare_direct_link(42, 0, &items, "tok").expect("resolvable");
    let r = resolve_probe(probe, 302, None);
    assert_eq!(r.err(), Some(ResolveError::MissingLocation));

    let items = vec![link_item("https://d.example/f", "file.bin", 0)];
    let probe = prepare_direct_link(42, 0, &items, "tok").expect("resolvable");
    let r = resolve_probe(probe, 200, None).expect("non-redirect resolves");
    assert_eq!(r.url, "https://d.example/f?access_token=tok");
}

#[test]
fn fetch_status_accepts_only_success_range() {
    assert!(check_fetch_status(200).is_ok());
    assert!(check_fetch_status(299).is_ok());
    assert_eq!(
        check_fetch_status(404).err(),
        Some(FetchError::NonSuccessStatus(404))
    );
    assert_eq!(
        check_fetch_status(199).err(),
        Some(FetchError::NonSuccessStatus(199))
    );
}

#[test]
fn batch_rules_are_empty_input_and_all_failed() {
    assert_eq!(
        check_batch_input(&vec![]).err(),
        Some(BatchError::EmptyInput)
    );
    assert!(check_batch_input(&vec![1]).is_ok());
    assert_eq!(
        finish_link_batch(vec![]).err(),
        Some(BatchError::AllFailed)
    );
    let one = vec![ResolvedLink {
        filename: "f".to_string(),
        url: "u".to_string(),
    }];
    assert_eq!(finish_link_batch(one).expect("kept").len(), 1);
}

#[test]
fn credential_prefers_configured_static_value() {
    let cfg = OpenApiConfig {
        access_token: "static-tok".to_string(),
        refresh_token: "refresh-sec".to_string(),
        client_id: "id".to_string(),
        client_secret: "sec".to_string(),
    };
    match plan_obtain(&cfg).expect("plan") {
        ObtainPlan::UseStatic(c) => {
            assert_eq!(c.value, "static-tok");
            assert_eq!(c.source, CredentialSource::CachedConfigured);
        }
        _ => panic!("the static value must win"),
    }
}

#[test]
fn credential_refresh_rejected_by_endpoint() {
    // An empty static token with a refresh secret plans an exchange; a 400
    // answer fails the refresh, so nothing downstream runs and nothing is
    // persisted.
    let cfg = OpenApiConfig {
        access_token: String::new(),
        refresh_token: "refresh-sec".to_string(),
        client_id: "id".to_string(),
        client_secret: "sec".to_string(),
    };
    match plan_obtain(&cfg).expect("plan") {
        ObtainPlan::ExchangeRefreshToken => {}
        _ => panic!("a refresh exchange must be planned"),
    }
    let r = interpret_refresh_reply(400, None);
    assert_eq!(
        r.err(),
        Some(CredentialError::RefreshFailed(RefreshReason::HttpStatus(400)))
    );
}

#[test]
fn credential_not_configured_without_either_secret() {
    let cfg = OpenApiConfig {
        access_token: String::new(),
        refresh_token: String::new(),
        client_id: "id".to_string(),
        client_secret: "sec".to_string(),
    };
    assert_eq!(plan_obtain(&cfg).err(), Some(CredentialError::NotConfigured));
}

#[test]
fn refresh_reply_paths() {
    let good = RawTokenReply {
        access_token: "new-tok".to_string(),
        refresh_token: "next".to_string(),
        error: None,
        error_description: None,
    };
    let c = interpret_refresh_reply(200, Some(good)).expect("refresh succeeds");
    assert_eq!(c.value, "new-tok");
    assert_eq!(c.source, CredentialSource::RefreshedFromRefreshToken);

    let err_reply = RawTokenReply {
        access_token: String::new(),
        refresh_token: String::new(),
        error: Some("invalid_grant".to_string()),
        error_description: Some("expired".to_string()),
    };
    assert_eq!(
        interpret_refresh_reply(200, Some(err_reply)).err(),
        Some(CredentialError::RefreshFailed(RefreshReason::ErrorReply))
    );

    let empty = RawTokenReply {
        access_token: String::new(),
        refresh_token: String::new(),
        error: None,
        error_description: None,
    };
    assert_eq!(
        interpret_refresh_reply(200, Some(empty)).err(),
        Some(CredentialError::RefreshFailed(RefreshReason::EmptyCredential))
    );

    assert_eq!(
        interpret_refresh_reply(200, None).err(),
        Some(CredentialError::RefreshFailed(RefreshReason::UnreadableReply))
    );
}

#[test]
fn refresh_url_carries_encoded_triple() {
    let cfg = OpenApiConfig {
        access_token: String::new(),
        refresh_token: "r t".to_string(),
        client_id: "c+i".to_string(),
        client_secret: "s".to_string(),
    };
    let url = refresh_request_url(&cfg).expect("buildable");
    assert_eq!(
        url,
        "https://openapi.baidu.com/oauth/2.0/token?grant_type=refresh_token&refresh_token=r%20t&client_id=c%2Bi&client_secret=s"
    );
}

#[test]
fn refresh_url_requires_client_identity() {
    let cfg = OpenApiConfig {
        access_token: String::new(),
        refresh_token: "rt".to_string(),
        client_id: String::new(),
        client_secret: "s".to_string(),
    };
    assert_eq!(
        refresh_request_url(&cfg).err(),
        Some(CredentialError::RefreshFailed(RefreshReason::MissingClientIdentity))
    );
}

#[test]
fn metadata_urls_are_exact() {
    assert_eq!(
        file_metas_url(42, "a b"),
        "https://pan.baidu.com/rest/2.0/xpan/multimedia?method=filemetas&fsids=[42]&dlink=1&access_token=a%20b"
    );
    assert_eq!(
        dir_list_url("/my docs"),
        "https://pan.baidu.com/api/list?dir=%2Fmy%20docs&num=1000&order=time&desc=0"
    );
}

#[test]
fn listing_urls_and_open_download_url_are_exact() {
    assert_eq!(
        recent_list_url("/my docs"),
        "https://pan.baidu.com/api/list?dir=%2Fmy%20docs&num=100&order=time&desc=1"
    );
    assert_eq!(
        open_download_url("/a b.txt", "tok"),
        "https://pan.baidu.com/rest/2.0/xpan/file?method=download&path=%2Fa%20b.txt&access_token=tok"
    );
}

#[test]
fn id_and_file_listings_map_in_order() {
    let items = vec![
        RawListedItem {
            fs_id: 5,
            server_filename: "n1".to_string(),
            path: "/p/n1".to_string(),
            isdir: 0,
        },
        RawListedItem {
            fs_id: 6,
            server_filename: "n2".to_string(),
            path: "/p/n2".to_string(),
            isdir: 1,
        },
    ];
    assert_eq!(interpret_id_listing(0, &items).expect("ids"), vec![5, 6]);
    assert_eq!(
        interpret_file_listing(0, &items).expect("pairs"),
        vec![(5, "n1".to_string()), (6, "n2".to_string())]
    );
    assert_eq!(
        interpret_id_listing(-9, &items).err(),
        Some(MetaError::BackendError(-9))
    );
}

#[test]
fn file_metas_interpretation() {
    let items = vec![RawMetaItem {
        filename: "report.pdf".to_string(),
        path: "/shared/report.pdf".to_string(),
        isdir: 0,
    }];
    let m = interpret_file_metas(42, 0, &items).expect("found");
    assert_eq!(m.fsid, 42);
    assert_eq!(m.filename, "report.pdf");
    assert_eq!(m.path, "/shared/report.pdf");
    assert!(!m.is_dir);

    assert_eq!(
        interpret_file_metas(42, 0, &vec![]).err(),
        Some(MetaError::NotFound)
    );
    assert_eq!(
        interpret_file_metas(42, 2, &items).err(),
        Some(MetaError::BackendError(2))
    );
}

#[test]
fn listing_reconstructs_missing_paths() {
    let items = vec![
        RawListedItem {
            fs_id: 1,
            server_filename: "a.txt".to_string(),
            path: "/d/a.txt".to_string(),
            isdir: 0,
        },
        RawListedItem {
            fs_id: 2,
            server_filename: "b.txt".to_string(),
            path: String::new(),
            isdir: 0,
        },
    ];
    let entries = interpret_dir_listing("/d/", 0, &items).expect("listed");
    assert_eq!(entries[0].path, "/d/a.txt");
    assert_eq!(entries[1].path, "/d/b.txt");
}

#[test]
fn open_download_reply_paths() {
    // A redirect hands the final URL in its location.
    let r = interpret_open_download(302, Some("https://real.example/x".to_string()), None);
    assert_eq!(r.ok(), Some("https://real.example/x".to_string()));
    assert_eq!(
        interpret_open_download(302, None, None).err(),
        Some(ResolveError::MissingLocation)
    );
    assert_eq!(
        interpret_open_download(500, None, None).err(),
        Some(ResolveError::HttpStatus(500))
    );
    assert_eq!(
        interpret_open_download(200, None, None).err(),
        Some(ResolveError::UnreadableReply)
    );

    let body = RawOpenDownload {
        errno: 0,
        error_code: 0,
        dlink: "https://d.example/top".to_string(),
        list: vec![],
        urls: vec![],
    };
    assert_eq!(
        interpret_open_download(200, None, Some(body)).ok(),
        Some("https://d.example/top".to_string())
    );

    let body = RawOpenDownload {
        errno: 0,
        error_code: 0,
        dlink: String::new(),
        list: vec![],
        urls: vec![RawUrlItem {
            dlink: String::new(),
            url: "https://d.example/alt".to_string(),
        }],
    };
    assert_eq!(
        interpret_open_download(200, None, Some(body)).ok(),
        Some("https://d.example/alt".to_string())
    );

    let body = RawOpenDownload {
        errno: 0,
        error_code: -9,
        dlink: "https://d.example/top".to_string(),
        list: vec![],
        urls: vec![],
    };
    assert_eq!(
        interpret_open_download(200, None, Some(body)).err(),
        Some(ResolveError::BackendError(-9))
    );

    let body = RawOpenDownload {
        errno: 0,
        error_code: 0,
        dlink: String::new(),
        list: vec![],
        urls: vec![],
    };
    assert_eq!(
        interpret_open_download(200, None, Some(body)).err(),
        Some(ResolveError::EmptyLink)
    );
}

#[test]
fn union_typed_identifiers_decode() {
    assert_eq!(fsid_from_value(&IdValue::Number(7)), Ok(7));
    assert_eq!(fsid_from_value(&IdValue::Text("123".to_string())), Ok(123));
    assert_eq!(fsid_from_value(&IdValue::Text("+5".to_string())), Ok(5));
    assert_eq!(
        fsid_from_value(&IdValue::Text("12a".to_string())),
        Err(IdParseError::NotANumber)
    );
    assert_eq!(
        fsid_from_value(&IdValue::Text("18446744073709551616".to_string())),
        Err(IdParseError::NotANumber)
    );
    assert_eq!(
        fsid_from_value(&IdValue::Text(String::new())),
        Err(IdParseError::NotANumber)
    );

    let item = FileItem {
        fs_id: 99,
        server_filename: "x".to_string(),
    };
    assert_eq!(item.get_fsid(), 99);
}
