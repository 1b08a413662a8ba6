use base64::engine::general_purpose::STANDARD;
use base64::Engine;
use viap::integrity::{
    asset_names, check_signatures, classify_reply, collect_signatures, failed_start,
    judge_outcomes, key_failure_message, load_public_key, release_tag, signature_url,
    verify_file_integrity, FetchOutcome, IntegrityStatus, KeyFault, ProgramFile, ReplyKind,
    SignatureFetchError, StartFailure,
};
use viap::portable_update::{
    check_portable_update, compare_with_tag, is_newer_version, parse_version_segments,
};

#[test]
fn compares_versions_numerically_not_lexically() {
    assert!(is_newer_version("1.10.0", "1.9.0"));
    assert!(!is_newer_version("1.9.0", "1.10.0"));
}

#[test]
fn strips_v_prefix_and_build_suffix() {
    assert!(is_newer_version("v1.2.2", "1.2.1"));
    assert!(is_newer_version("1.2.2-beta.1", "1.2.1"));
    assert_eq!(parse_version_segments("V1.2.1"), Some(vec![1, 2, 1]));
}

#[test]
fn treats_equal_or_unparsable_versions_as_no_update() {
    assert!(!is_newer_version("1.2.1", "1.2.1"));
    assert!(!is_newer_version("", "1.2.1"));
    assert!(!is_newer_version("latest", "1.2.1"));
}

#[test]
fn version_order_is_transitive_on_samples() {
    assert!(is_newer_version("2", "1.9"));
    assert!(is_newer_version("1.9.0", "1.9"));
    assert!(is_newer_version("2", "1.9.0") && !is_newer_version("1.9.0", "2"));
    assert_eq!(parse_version_segments(" v1. 2 .3+7 "), Some(vec![1, 2, 3]));
    assert_eq!(parse_version_segments("1..2"), None);
    assert_eq!(parse_version_segments("1.+2"), None);
    assert_eq!(parse_version_segments("18446744073709551616"), None);
    assert_eq!(parse_version_segments("18446744073709551615"), Some(vec![u64::MAX]));
}

#[test]
fn update_check_reads_the_tag() {
    let check =
        check_portable_update(true, r#"{"tag_name":"v1.3.0","x":1}"#, "1.2.9".to_string()).unwrap();
    assert!(check.has_update);
    assert_eq!(check.latest_version, "1.3.0");
    assert_eq!(check.current_version, "1.2.9");
    assert!(check_portable_update(false, r#"{"tag_name":"v1.3.0"}"#, "1".to_string()).is_none());
    assert!(check_portable_update(true, "not json", "1".to_string()).is_none());
    assert!(check_portable_update(true, "{}", "1".to_string()).is_none());
    assert!(check_portable_update(true, r#"{"tag_name":3}"#, "1".to_string()).is_none());
    assert!(!compare_with_tag("vV1.0", "1.0".to_string()).has_update);
    assert_eq!(compare_with_tag("vV1.0", "1.0".to_string()).latest_version, "1.0");
}

#[test]
fn public_key_is_readable() {
    let key = load_public_key().unwrap();
    assert!(key.starts_with("untrusted comment: minisign public key: 619DF22411F1194A\n"));
    assert!(key.contains("RWRKGfERJPKdYYDR5uwwouX8KjzUAK7T8zxkiUdgMmp591zUDa263yGE"));
}

#[test]
fn key_failures_name_the_step() {
    assert_eq!(key_failure_message(KeyFault::Base64, "e"), "公钥 Base64 解码失败: e");
    assert_eq!(key_failure_message(KeyFault::Encoding, "e"), "公钥文本编码无效: e");
    assert_eq!(key_failure_message(KeyFault::Key, "e"), "Minisign 公钥解析失败: e");
}

#[test]
fn failed_starts_are_classified() {
    let key = failed_start(&StartFailure::Key("k".to_string()));
    assert_eq!((key.status, key.message.as_str()), (IntegrityStatus::ConfigurationError, "k"));
    let exe = failed_start(&StartFailure::Executable("k".to_string()));
    assert_eq!(exe.status, IntegrityStatus::LocalFileError);
    assert_eq!(exe.message, "无法定位当前程序文件: k");
    let client = failed_start(&StartFailure::Client("k".to_string()));
    assert_eq!(client.message, "创建网络校验服务失败: k");
}

#[test]
fn release_files_are_named() {
    let tag = release_tag("1.2.3");
    assert_eq!(tag, "v1.2.3");
    let names = asset_names(&tag);
    assert_eq!(
        names,
        vec![
            "viap_v1.2.3_x64.exe",
            "viap_v1.2.3_x64-offline-webview2.exe",
            "viap_v1.2.3_x64-portable.exe"
        ]
    );
    assert_eq!(
        signature_url(&tag, &names[0]),
        "https://github.com/Chunyu33/viap/releases/download/v1.2.3/viap_v1.2.3_x64.exe.sig"
    );
}

#[test]
fn replies_are_classified() {
    assert!(matches!(classify_reply(404, "404 Not Found"), ReplyKind::Absent));
    assert!(matches!(classify_reply(200, "200 OK"), ReplyKind::Present));
    assert!(matches!(classify_reply(299, "299"), ReplyKind::Present));
    match classify_reply(403, "403 Forbidden") {
        ReplyKind::Refused(reason) => assert_eq!(reason, "GitHub 返回 HTTP 403 Forbidden"),
        _ => panic!("refused"),
    }
}

fn signature_text(key_id: [u8; 8], prehashed: bool) -> String {
    let mut first: Vec<u8> = vec![0x45, if prehashed { 0x44 } else { 0x64 }];
    first.extend_from_slice(&key_id);
    first.extend_from_slice(&[7u8; 64]);
    let second = [9u8; 64];
    format!(
        "untrusted comment: x\n{}\ntrusted comment: y\n{}\n",
        STANDARD.encode(&first),
        STANDARD.encode(second)
    )
}

const KEY_ID: [u8; 8] = [0x4a, 0x19, 0xf1, 0x11, 0x24, 0xf2, 0x9d, 0x61];

fn fetched_three(text: &str) -> Vec<FetchOutcome> {
    vec![
        FetchOutcome::Fetched(text.to_string()),
        FetchOutcome::Fetched(text.to_string()),
        FetchOutcome::Fetched(text.to_string()),
    ]
}

#[test]
fn content_that_no_signature_fits_is_tampered_with() {
    let file = ProgramFile::Read(b"program".to_vec());
    let result = verify_file_integrity("v1", fetched_three(&signature_text(KEY_ID, true)), &file);
    assert_eq!(result.status, IntegrityStatus::Tampered);
    assert_eq!(result.message, "签名与当前程序内容不一致，当前程序可能已被篡改");
    assert!(result.asset_name.is_none());
}

#[test]
fn signatures_of_other_keys_and_modes_are_invalid() {
    let file = ProgramFile::Read(b"program".to_vec());
    let other = verify_file_integrity("v1", fetched_three(&signature_text([0; 8], true)), &file);
    assert_eq!(other.status, IntegrityStatus::SignatureInvalid);
    assert_eq!(
        other.message,
        "签名 viap_v1_x64.exe 不支持流式校验: The signature was created with a different key than the one provided"
    );
    let legacy = verify_file_integrity("v1", fetched_three(&signature_text(KEY_ID, false)), &file);
    assert_eq!(legacy.status, IntegrityStatus::SignatureInvalid);
    assert_eq!(
        legacy.message,
        "签名 viap_v1_x64.exe 不支持流式校验: StreamVerifier only supports non-legacy mode signatures"
    );
}

#[test]
fn unreadable_signatures_are_never_tampering() {
    let file = ProgramFile::Read(b"program".to_vec());
    let result = verify_file_integrity("v1", fetched_three("garbage"), &file);
    assert_eq!(result.status, IntegrityStatus::SignatureInvalid);
    assert_eq!(result.message, "GitHub 签名文件解析失败，无法完成完整性校验");
}

#[test]
fn missing_signatures_are_never_tampering() {
    let file = ProgramFile::Read(b"program".to_vec());
    let none = vec![FetchOutcome::Absent, FetchOutcome::Absent, FetchOutcome::Absent];
    let result = verify_file_integrity("v1", none, &file);
    assert_eq!(result.status, IntegrityStatus::SignatureNotFound);
    assert_eq!(
        result.message,
        "未找到版本 v1 对应的程序签名文件，请确认当前版本来自官方发布渠道"
    );
    let some = vec![
        FetchOutcome::Fetched(signature_text(KEY_ID, true)),
        FetchOutcome::Absent,
        FetchOutcome::Absent,
    ];
    let result = verify_file_integrity("v1", some, &file);
    assert_eq!(result.status, IntegrityStatus::SignatureNotFound);
    assert_eq!(
        result.message,
        "当前 Release 的完整性签名不完整，无法可靠判断当前程序是否被篡改"
    );
}

#[test]
fn network_failures_are_never_tampering() {
    let network = vec![
        FetchOutcome::Absent,
        FetchOutcome::Failed(SignatureFetchError::Network("down".to_string())),
    ];
    let result = check_signatures("v1", network).unwrap_err();
    assert_eq!(result.status, IntegrityStatus::NetworkError);
    assert_eq!(result.message, "无法连接 GitHub，暂时无法完成校验，请稍后重试: down");
    let remote =
        vec![FetchOutcome::Failed(SignatureFetchError::Remote("GitHub 返回 HTTP 500".to_string()))];
    let result = check_signatures("v1", remote).unwrap_err();
    assert_eq!(result.status, IntegrityStatus::NetworkError);
    assert_eq!(result.message, "GitHub 暂时无法提供校验文件，请稍后重试: GitHub 返回 HTTP 500");
}

#[test]
fn unreadable_programs_are_never_tampering() {
    let signatures = signature_text(KEY_ID, true);
    let cases = [
        (ProgramFile::NotOpened("e".to_string()), "无法读取当前程序文件: e"),
        (ProgramFile::NotRead("e".to_string()), "读取当前程序文件失败: e"),
        (ProgramFile::BrokenOff("e".to_string()), "完整性校验线程异常，请稍后重试: e"),
    ];
    for (file, message) in cases {
        let result = verify_file_integrity("v1", fetched_three(&signatures), &file);
        assert_eq!(result.status, IntegrityStatus::LocalFileError);
        assert_eq!(result.message, message);
    }
}

#[test]
fn first_fitting_signature_decides() {
    let names = vec!["a".to_string(), "b".to_string()];
    let fits = judge_outcomes(&names, &vec![Ok(false), Ok(true)]);
    assert_eq!(fits.status, IntegrityStatus::Verified);
    assert_eq!(fits.asset_name.as_deref(), Some("b"));
    assert_eq!(fits.message, "文件完整性校验通过，当前程序安全");
    let fails = judge_outcomes(&names, &vec![Err("e".to_string()), Ok(true)]);
    assert_eq!(fails.status, IntegrityStatus::SignatureInvalid);
    assert_eq!(fails.message, "签名 a 校验失败: e");
    assert_eq!(
        judge_outcomes(&names, &vec![Ok(false), Ok(false)]).status,
        IntegrityStatus::Tampered
    );
}

#[test]
fn signatures_keep_their_programs_names() {
    let fetched = vec![
        FetchOutcome::Absent,
        FetchOutcome::Fetched("s".to_string()),
        FetchOutcome::Absent,
    ];
    let signatures = collect_signatures("v1", fetched).unwrap();
    assert_eq!(signatures.len(), 1);
    assert_eq!(signatures[0].asset_name, "viap_v1_x64-offline-webview2.exe");
    assert_eq!(signatures[0].content, "s");
}
