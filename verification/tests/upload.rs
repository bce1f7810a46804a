use hibernation::api::{UploadFinishRequest, UploadInfoRequest, UploadPathRequest};
use hibernation::upload::{
    after_downstream, check_finish, check_force, check_info_request, check_path_request, eviction_amount,
    finish_data, info_after_lookup, narinfo_file_name, InfoStep, PushError,
};
use uuid::Uuid;

const HASH: &str = "0mdqa9w1p6cmli6976v4wi0sw9r4p5pr";

fn path(name: &str) -> String {
    format!("{}-{}", HASH, name)
}

#[test]
fn info_request_needs_store_paths() {
    let ok = UploadInfoRequest { cache: "c".to_string(), paths: vec![path("hello-2.12"), path("glibc")], force: false };
    assert!(check_info_request(&ok).is_ok());
    let bad = UploadInfoRequest { cache: "c".to_string(), paths: vec![path("hello"), "nope".to_string()], force: false };
    let e = check_info_request(&bad).unwrap_err();
    assert!(matches!(e, PushError::InvalidStorePaths));
    assert_eq!(e.message(), "One or more invalid store paths");
}

#[test]
fn store_path_syntax() {
    let cases = [
        (path("hello"), true),
        (path(""), false),
        (format!("{}_hello", HASH), false),
        ("0mdqa9w1p6cmli6976v4wi0sw9r4p5pe-hello".to_string(), false),
        (path("héllo"), false),
        (path("a+b=c?d_e.f-G9"), true),
        (path("x/y"), false),
        (path(&"a".repeat(211)), true),
        (path(&"a".repeat(212)), false),
    ];
    for (p, valid) in cases {
        assert_eq!(narinfo_file_name(&p).is_some(), valid, "{}", p);
    }
    assert_eq!(narinfo_file_name(&path("hello")).unwrap(), format!("{}.narinfo", HASH));
}

#[test]
fn force_push_rules() {
    assert!(check_force(true, true).is_ok());
    assert!(check_force(false, false).is_ok());
    assert!(check_force(true, false).is_ok());
    assert!(matches!(check_force(false, true), Err(PushError::ForcePushNotAllowed)));
}

#[test]
fn info_steps() {
    assert!(matches!(info_after_lookup(vec![], false), Err(PushError::AllPresent)));
    assert!(matches!(info_after_lookup(vec!["a".to_string()], true), Ok(InfoStep::Answer(v)) if v == vec!["a".to_string()]));
    assert!(matches!(info_after_lookup(vec!["a".to_string()], false), Ok(InfoStep::AskDownstream(_))));
}

#[test]
fn downstream_results() {
    let results = vec![
        Some((true, "a".to_string())),
        Some((false, "b".to_string())),
        None,
        Some((false, "d".to_string())),
    ];
    assert_eq!(after_downstream(results).unwrap(), vec!["b".to_string(), "d".to_string()]);
    let e = after_downstream(vec![Some((true, "a".to_string())), None]).unwrap_err();
    assert_eq!(e.message(), "All paths are already present in the downstream cache");
}

fn path_request(store_path: String, references: Vec<String>) -> UploadPathRequest {
    UploadPathRequest {
        cache: Uuid::nil(),
        force: false,
        store_path,
        nar_hash: "h".to_string(),
        nar_size: 1,
        deriver: None,
        references,
        signature: "s".to_string(),
    }
}

#[test]
fn path_request_checks() {
    assert_eq!(check_path_request(&path_request(path("a"), vec![path("b")])).unwrap(), HASH);
    assert!(matches!(check_path_request(&path_request("x".to_string(), vec![])), Err(PushError::InvalidStorePath)));
    assert!(matches!(
        check_path_request(&path_request(path("a"), vec!["y".to_string()])),
        Err(PushError::InvalidReferences)
    ));
}

#[test]
fn finish_confirmation() {
    let info = path_request(path("a"), vec![]);
    let data = finish_data(info, Uuid::nil(), "nh".to_string(), 5, "fh".to_string(), 7, false);
    assert_eq!(data.store_path_hash, HASH);
    assert_eq!(data.store_path, path("a"));
    let same = UploadFinishRequest { file_hash: "fh".to_string(), file_size: 7 };
    let other = UploadFinishRequest { file_hash: "fh".to_string(), file_size: 8 };
    assert!(check_finish(&data, &same).is_ok());
    assert!(matches!(check_finish(&data, &other), Err(PushError::FileMismatch)));
    let found = finish_data(path_request(path("a"), vec![]), Uuid::nil(), "nh".to_string(), 5, "fh".to_string(), 7, true);
    assert!(check_finish(&found, &other).is_ok());
}

#[test]
fn eviction_rules() {
    assert!(matches!(eviction_amount(100, 0, 101), Err(PushError::OverQuota)));
    assert!(matches!(eviction_amount(100, 50, 50), Ok(None)));
    assert!(matches!(eviction_amount(100, 80, 50), Ok(Some(30))));
    assert!(matches!(eviction_amount(100, 0, 100), Ok(None)));
    // A size beyond i64::MAX reads as negative, as the cast does.
    assert!(matches!(eviction_amount(100, 0, u64::MAX), Ok(None)));
}
