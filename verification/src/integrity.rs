//! Whether the running program is the one that was published: its content is
//! checked against the signatures of the release.

#![verifier::loop_isolation(false)]

use base64::engine::general_purpose::STANDARD;
use base64::Engine;
use minisign_verify::{Error, PublicKey, Signature};
use vstd::prelude::*;

use crate::list::Queue;
use crate::text;

verus! {

/// The key that releases are signed with, as Base64 of its text.
pub const UPDATER_PUBLIC_KEY: &'static str =
    "dW50cnVzdGVkIGNvbW1lbnQ6IG1pbmlzaWduIHB1YmxpYyBrZXk6IDYxOURGMjI0MTFGMTE5NEEKUldSS0dmRVJKUEtkWVlEUjV1d3dvdVg4S2p6VUFLN1Q4enhraVVkZ01tcDU5MXpVRGEyNjN5R0UK";

/// Where the files of releases are.
pub const GITHUB_RELEASE_BASE_URL: &'static str =
    "https://github.com/Chunyu33/viap/releases/download";

/// What the `STANDARD` engine of the `base64` crate makes of a text: the bytes
/// that it encodes, or its error as it is written.
pub uninterp spec fn base64_decoding(s: Seq<char>) -> Result<Seq<u8>, Seq<char>>;

/// Why `minisign_verify::PublicKey::decode` rejects a text, as it writes it;
/// absent where it accepts it.
pub uninterp spec fn public_key_error(s: Seq<char>) -> Option<Seq<char>>;

/// Whether `minisign_verify::Signature::decode` accepts a text.
pub uninterp spec fn is_signature_text(s: Seq<char>) -> bool;

/// Why `minisign_verify::PublicKey::verify_stream` rejects a signature, as it
/// writes it; absent where it accepts it. Key and signature are given by their
/// texts.
pub uninterp spec fn stream_error(key: Seq<char>, signature: Seq<char>) -> Option<Seq<char>>;

/// What `minisign_verify::StreamVerifier::finalize` says of content: whether it
/// is what was signed, or another error as it is written. Key and signature are
/// given by their texts.
pub uninterp spec fn stream_outcome(
    key: Seq<char>,
    signature: Seq<char>,
    content: Seq<u8>,
) -> Result<bool, Seq<char>>;

pub open spec fn bytes_view(r: Result<Vec<u8>, String>) -> Result<Seq<u8>, Seq<char>> {
    match r {
        Ok(bytes) => Ok(bytes@),
        Err(error) => Err(error@),
    }
}

/// Calls `decode` of the `base64` crate's `STANDARD` engine. The result is
/// named.
#[verifier::external_body]
fn decode_base64(s: &str) -> (r: Result<Vec<u8>, String>)
    ensures
        bytes_view(r) == base64_decoding(s@),
{
    STANDARD.decode(s).map_err(|error| error.to_string())
}

/// Calls `minisign_verify::PublicKey::decode`. Whether and why it rejects the
/// text is named; nothing is said of the key.
#[verifier::external_body]
fn find_public_key_error(s: &str) -> (r: Option<String>)
    ensures
        text::view_of(r) == public_key_error(s@),
{
    PublicKey::decode(s).err().map(|error| error.to_string())
}

/// Calls `minisign_verify::Signature::decode`. Whether it accepts the text is
/// named; nothing is said of the signature.
#[verifier::external_body]
fn decodes_as_signature(s: &str) -> (r: bool)
    ensures
        r == is_signature_text(s@),
{
    Signature::decode(s).is_ok()
}

/// Calls `minisign_verify::PublicKey::verify_stream` on the key and the
/// signature that the texts encode. Whether and why it rejects the signature is
/// named.
#[verifier::external_body]
fn find_stream_error(key: &str, signature: &str) -> (r: Option<String>)
    requires
        public_key_error(key@) is None,
        is_signature_text(signature@),
    ensures
        text::view_of(r) == stream_error(key@, signature@),
{
    let key = PublicKey::decode(key).unwrap();
    let signature = Signature::decode(signature).unwrap();
    let r = key.verify_stream(&signature).err().map(|error| error.to_string());
    r
}

pub open spec fn outcome_view(r: Result<bool, String>) -> Result<bool, Seq<char>> {
    match r {
        Ok(valid) => Ok(valid),
        Err(error) => Err(error@),
    }
}

/// Hands the content to the stream verifier of the key and the signature that
/// the texts encode, and calls `minisign_verify::StreamVerifier::finalize`. What
/// it says is named.
#[verifier::external_body]
fn verify_content(key: &str, signature: &str, content: &Vec<u8>) -> (r: Result<bool, String>)
    requires
        public_key_error(key@) is None,
        is_signature_text(signature@),
        stream_error(key@, signature@) is None,
    ensures
        outcome_view(r) == stream_outcome(key@, signature@, content@),
{
    let key = PublicKey::decode(key).unwrap();
    let signature = Signature::decode(signature).unwrap();
    let mut verifier = key.verify_stream(&signature).unwrap();
    verifier.update(content);
    match verifier.finalize() {
        Ok(()) => Ok(true),
        Err(Error::InvalidSignature) => Ok(false),
        Err(error) => Err(error.to_string()),
    }
}

/// What a check led to.
#[derive(Clone, Copy, Debug, PartialEq, Eq, Structural)]
pub enum IntegrityStatus {
    Verified,
    Tampered,
    NetworkError,
    SignatureNotFound,
    SignatureInvalid,
    LocalFileError,
    ConfigurationError,
}

/// What a check led to, in words, and which file's signature fitted.
#[derive(Debug)]
pub struct IntegrityCheckResult {
    pub status: IntegrityStatus,
    pub message: String,
    pub asset_name: Option<String>,
}

/// What a check led to, as a value.
pub struct IntegrityView {
    pub status: IntegrityStatus,
    pub message: Seq<char>,
    pub asset_name: Option<Seq<char>>,
}

impl View for IntegrityCheckResult {
    type V = IntegrityView;

    open spec fn view(&self) -> IntegrityView {
        IntegrityView {
            status: self.status,
            message: self.message@,
            asset_name: text::view_of(self.asset_name),
        }
    }
}

pub open spec fn outcome(status: IntegrityStatus, message: Seq<char>) -> IntegrityView {
    IntegrityView { status, message, asset_name: None }
}

fn result(status: IntegrityStatus, message: String, asset_name: Option<String>) -> (r:
    IntegrityCheckResult)
    ensures
        r@ == (IntegrityView { status, message: message@, asset_name: text::view_of(asset_name) }),
{
    IntegrityCheckResult { status, message, asset_name }
}

fn message(head: &str, tail: &str) -> (r: String)
    ensures
        r@ == head@ + tail@,
{
    let mut r = head.to_owned();
    r.push_str(tail);
    r
}

/// The text of the key that Base64 text encodes, or why there is none.
pub open spec fn key_text_of(encoded: Seq<char>) -> Result<Seq<char>, Seq<char>> {
    match base64_decoding(encoded) {
        Err(error) => Err(key_failure(KeyFault::Base64, error)),
        Ok(bytes) => if !vstd::utf8::valid_utf8(bytes) {
            Err(key_failure(KeyFault::Encoding, text::utf8_error(bytes)))
        } else {
            let key = vstd::utf8::decode_utf8(bytes);
            match public_key_error(key) {
                Some(error) => Err(key_failure(KeyFault::Key, error)),
                None => Ok(key),
            }
        },
    }
}

/// At which step reading the key failed.
#[derive(Clone, Copy, Debug, PartialEq, Eq, Structural)]
pub enum KeyFault {
    Base64,
    Encoding,
    Key,
}

/// What is said of a key that cannot be read.
pub open spec fn key_failure(fault: KeyFault, error: Seq<char>) -> Seq<char> {
    match fault {
        KeyFault::Base64 => "公钥 Base64 解码失败: "@ + error,
        KeyFault::Encoding => "公钥文本编码无效: "@ + error,
        KeyFault::Key => "Minisign 公钥解析失败: "@ + error,
    }
}

/// What is said of a key that cannot be read.
pub fn key_failure_message(fault: KeyFault, error: &str) -> (r: String)
    ensures
        r@ == key_failure(fault, error@),
{
    match fault {
        KeyFault::Base64 => message("公钥 Base64 解码失败: ", error),
        KeyFault::Encoding => message("公钥文本编码无效: ", error),
        KeyFault::Key => message("Minisign 公钥解析失败: ", error),
    }
}

/// The text of the key that releases are signed with, or why it cannot be read.
pub fn load_public_key() -> (r: Result<String, String>)
    ensures
        match r {
            Ok(key) => key_text_of(UPDATER_PUBLIC_KEY@) == Ok::<Seq<char>, Seq<char>>(key@),
            Err(reason) => key_text_of(UPDATER_PUBLIC_KEY@) == Err::<Seq<char>, Seq<char>>(
                reason@,
            ),
        },
{
    let bytes = match decode_base64(UPDATER_PUBLIC_KEY) {
        Ok(bytes) => bytes,
        Err(error) => {
            return Err(key_failure_message(KeyFault::Base64, error.as_str()));
        },
    };
    let key = match text::decode_utf8_text(bytes) {
        Ok(key) => key,
        Err(error) => {
            return Err(key_failure_message(KeyFault::Encoding, error.as_str()));
        },
    };
    match find_public_key_error(key.as_str()) {
        Some(error) => Err(key_failure_message(KeyFault::Key, error.as_str())),
        None => Ok(key),
    }
}

/// Why a check could not even begin.
#[derive(Debug)]
pub enum StartFailure {
    Key(String),
    Executable(String),
    Client(String),
}

/// What is said of a check that could not begin.
pub fn failed_start(failure: &StartFailure) -> (r: IntegrityCheckResult)
    ensures
        r@ == match *failure {
            StartFailure::Key(reason) => outcome(IntegrityStatus::ConfigurationError, reason@),
            StartFailure::Executable(error) => outcome(
                IntegrityStatus::LocalFileError,
                "无法定位当前程序文件: "@ + error@,
            ),
            StartFailure::Client(error) => outcome(
                IntegrityStatus::ConfigurationError,
                "创建网络校验服务失败: "@ + error@,
            ),
        },
{
    match failure {
        StartFailure::Key(reason) => result(
            IntegrityStatus::ConfigurationError,
            reason.clone(),
            None,
        ),
        StartFailure::Executable(error) => result(
            IntegrityStatus::LocalFileError,
            message("无法定位当前程序文件: ", error.as_str()),
            None,
        ),
        StartFailure::Client(error) => result(
            IntegrityStatus::ConfigurationError,
            message("创建网络校验服务失败: ", error.as_str()),
            None,
        ),
    }
}

/// The tag of a release.
pub fn release_tag(version: &str) -> (r: String)
    ensures
        r@ == "v"@ + version@,
{
    message("v", version)
}

/// The name of a release's program.
pub open spec fn asset_name(tag: Seq<char>, suffix: Seq<char>) -> Seq<char> {
    "viap_"@ + tag + "_"@ + suffix
}

/// The names of a release's programs.
pub open spec fn asset_names_of(tag: Seq<char>) -> Seq<Seq<char>> {
    seq![
        asset_name(tag, "x64.exe"@),
        asset_name(tag, "x64-offline-webview2.exe"@),
        asset_name(tag, "x64-portable.exe"@),
    ]
}

fn name_asset(tag: &str, suffix: &str) -> (r: String)
    ensures
        r@ == asset_name(tag@, suffix@),
{
    let mut r = "viap_".to_owned();
    r.push_str(tag);
    r.push_str("_");
    r.push_str(suffix);
    r
}

/// The names of a release's programs.
pub fn asset_names(tag: &str) -> (r: Vec<String>)
    ensures
        text::texts(r@) == asset_names_of(tag@),
{
    let r = vec![
        name_asset(tag, "x64.exe"),
        name_asset(tag, "x64-offline-webview2.exe"),
        name_asset(tag, "x64-portable.exe"),
    ];
    assert(text::texts(r@) =~= asset_names_of(tag@));
    r
}

/// Where the signature of a release's program is.
pub fn signature_url(tag: &str, asset: &str) -> (r: String)
    ensures
        r@ == GITHUB_RELEASE_BASE_URL@ + "/"@ + tag@ + "/"@ + asset@ + ".sig"@,
{
    let mut r = GITHUB_RELEASE_BASE_URL.to_owned();
    r.push_str("/");
    r.push_str(tag);
    r.push_str("/");
    r.push_str(asset);
    r.push_str(".sig");
    r
}

/// What a status means for a signature.
#[derive(Debug)]
pub enum ReplyKind {
    /// There is none.
    Absent,
    /// It is in the reply.
    Present,
    /// It is not to be had now, for this reason.
    Refused(String),
}

/// What the status of a reply means. The status is given as it is written, too.
pub fn classify_reply(status: u16, written: &str) -> (r: ReplyKind)
    ensures
        match r {
            ReplyKind::Absent => status == 404,
            ReplyKind::Present => 200 <= status < 300,
            ReplyKind::Refused(reason) => status != 404 && !(200 <= status < 300) && reason@
                == "GitHub 返回 HTTP "@ + written@,
        },
{
    if status == 404 {
        ReplyKind::Absent
    } else if 200 <= status && status < 300 {
        ReplyKind::Present
    } else {
        ReplyKind::Refused(message("GitHub 返回 HTTP ", written))
    }
}

/// Why a signature could not be fetched.
#[derive(Debug)]
pub enum SignatureFetchError {
    Network(String),
    Remote(String),
}

/// What fetching a signature led to: its text, or that there is none.
#[derive(Debug)]
pub enum FetchOutcome {
    Fetched(String),
    Absent,
    Failed(SignatureFetchError),
}

/// A signature and the name of the program that it is for.
#[derive(Debug)]
pub struct DownloadedSignature {
    pub asset_name: String,
    pub content: String,
}

/// A signature and the name of its program, as a value.
pub struct SignatureView {
    pub asset_name: Seq<char>,
    pub content: Seq<char>,
}

impl View for DownloadedSignature {
    type V = SignatureView;

    open spec fn view(&self) -> SignatureView {
        SignatureView { asset_name: self.asset_name@, content: self.content@ }
    }
}

pub open spec fn signature_views(v: Seq<DownloadedSignature>) -> Seq<SignatureView> {
    Seq::new(v.len(), |i: int| v[i]@)
}

/// The signatures among what was fetched. What was fetched comes in the order
/// of the programs' names.
pub open spec fn signatures_in(names: Seq<Seq<char>>, fetched: Seq<FetchOutcome>) -> Seq<
    SignatureView,
>
    decreases fetched.len(),
{
    if fetched.len() == 0 {
        seq![]
    } else {
        let before = signatures_in(names, fetched.drop_last());
        match fetched.last() {
            FetchOutcome::Fetched(content) => before.push(
                SignatureView { asset_name: names[fetched.len() - 1], content: content@ },
            ),
            _ => before,
        }
    }
}

/// The position of the first failure in what was fetched, or its length.
pub open spec fn failure_position(fetched: Seq<FetchOutcome>, i: int) -> int
    decreases fetched.len() - i,
{
    if i >= fetched.len() || i < 0 || fetched[i] is Failed {
        i
    } else {
        failure_position(fetched, i + 1)
    }
}

pub open spec fn failure_message(error: SignatureFetchError) -> Seq<char> {
    match error {
        SignatureFetchError::Network(error) =>
            "无法连接 GitHub，暂时无法完成校验，请稍后重试: "@ + error@,
        SignatureFetchError::Remote(error) =>
            "GitHub 暂时无法提供校验文件，请稍后重试: "@ + error@,
    }
}

/// Whether every one of the signatures can be read.
pub open spec fn all_readable(signatures: Seq<SignatureView>) -> bool {
    forall|i: int|
        0 <= i < signatures.len() ==> is_signature_text((#[trigger] signatures[i]).content)
}

/// The signatures that a program is checked against, or why there is no check:
/// one could not be fetched, some are missing, or one cannot be read.
pub open spec fn usable_signatures(tag: Seq<char>, fetched: Seq<FetchOutcome>) -> Result<
    Seq<SignatureView>,
    IntegrityView,
> {
    let failure = failure_position(fetched, 0);
    let signatures = signatures_in(asset_names_of(tag), fetched);
    if failure < fetched.len() {
        Err(
            outcome(
                IntegrityStatus::NetworkError,
                failure_message(fetched[failure]->Failed_0),
            ),
        )
    } else if signatures.len() == 0 {
        Err(
            outcome(
                IntegrityStatus::SignatureNotFound,
                "未找到版本 "@ + tag
                    + " 对应的程序签名文件，请确认当前版本来自官方发布渠道"@,
            ),
        )
    } else if signatures.len() != 3 {
        Err(
            outcome(
                IntegrityStatus::SignatureNotFound,
                "当前 Release 的完整性签名不完整，无法可靠判断当前程序是否被篡改"@,
            ),
        )
    } else if !all_readable(signatures) {
        Err(
            outcome(
                IntegrityStatus::SignatureInvalid,
                "GitHub 签名文件解析失败，无法完成完整性校验"@,
            ),
        )
    } else {
        Ok(signatures)
    }
}

/// Gathers the signatures of a release from what was fetched for its programs,
/// in the order of their names; the first failure is handed on.
pub fn collect_signatures(tag: &str, fetched: Vec<FetchOutcome>) -> (r: Result<
    Vec<DownloadedSignature>,
    SignatureFetchError,
>)
    requires
        fetched@.len() <= 3,
    ensures
        match r {
            Ok(signatures) => failure_position(fetched@, 0) == fetched@.len() && signature_views(
                signatures@,
            ) == signatures_in(asset_names_of(tag@), fetched@),
            Err(error) => failure_position(fetched@, 0) < fetched@.len() && fetched@[
            failure_position(fetched@, 0)] == FetchOutcome::Failed(error),
        },
{
    let names = asset_names(tag);
    let ghost all = fetched@;
    assert(text::texts(names@).len() == 3);
    let mut rest = Queue::of(fetched);
    let mut r: Vec<DownloadedSignature> = Vec::new();
    let mut i: usize = 0;
    assert(rest@ =~= all.skip(0));
    assert(all.take(0) =~= seq![]);
    assert(signature_views(r@) =~= signatures_in(asset_names_of(tag@), all.take(0)));
    while rest.len() > 0
        invariant
            i <= all.len() <= 3,
            names@.len() == 3,
            text::texts(names@) == asset_names_of(tag@),
            rest@ == all.skip(i as int),
            failure_position(all, 0) == failure_position(all, i as int),
            signature_views(r@) == signatures_in(asset_names_of(tag@), all.take(i as int)),
        decreases rest@.len(),
    {
        let one = rest.take_first();
        assert(one == all[i as int]);
        assert(rest@ =~= all.skip(i + 1));
        assert(all.take(i + 1).drop_last() =~= all.take(i as int));
        match one {
            FetchOutcome::Failed(error) => {
                return Err(error);
            },
            FetchOutcome::Absent => {},
            FetchOutcome::Fetched(content) => {
                assert(text::texts(names@)[i as int] == names@[i as int]@);
                let ghost before = signature_views(r@);
                let signature = DownloadedSignature { asset_name: names[i].clone(), content };
                r.push(signature);
                assert(signature_views(r@) =~= before.push(signature@));
            },
        }
        i = i + 1;
    }
    assert(all.take(i as int) =~= all);
    Ok(r)
}

fn are_readable(signatures: &Vec<DownloadedSignature>) -> (r: bool)
    ensures
        r == all_readable(signature_views(signatures@)),
{
    let mut i: usize = 0;
    while i < signatures.len()
        invariant
            i <= signatures@.len(),
            forall|j: int|
                0 <= j < i ==> is_signature_text(
                    (#[trigger] signature_views(signatures@)[j]).content,
                ),
        decreases signatures@.len() - i,
    {
        assert(signature_views(signatures@)[i as int] == signatures@[i as int]@);
        if !decodes_as_signature(signatures[i].content.as_str()) {
            return false;
        }
        i = i + 1;
    }
    true
}

pub open spec fn usable_view(r: Result<Vec<DownloadedSignature>, IntegrityCheckResult>) -> Result<
    Seq<SignatureView>,
    IntegrityView,
> {
    match r {
        Ok(signatures) => Ok(signature_views(signatures@)),
        Err(result) => Err(result@),
    }
}

/// The signatures that a program is checked against, or why there is no check.
/// `fetched` is what fetching led to, in the order of the programs' names; it
/// may end at the first failure.
pub fn check_signatures(tag: &str, fetched: Vec<FetchOutcome>) -> (r: Result<
    Vec<DownloadedSignature>,
    IntegrityCheckResult,
>)
    requires
        fetched@.len() <= 3,
    ensures
        usable_view(r) == usable_signatures(tag@, fetched@),
{
    let signatures = match collect_signatures(tag, fetched) {
        Ok(signatures) => signatures,
        Err(error) => {
            let text = match &error {
                SignatureFetchError::Network(error) => message(
                    "无法连接 GitHub，暂时无法完成校验，请稍后重试: ",
                    error.as_str(),
                ),
                SignatureFetchError::Remote(error) => message(
                    "GitHub 暂时无法提供校验文件，请稍后重试: ",
                    error.as_str(),
                ),
            };
            return Err(result(IntegrityStatus::NetworkError, text, None));
        },
    };
    assert(signature_views(signatures@).len() == signatures@.len());
    if signatures.len() == 0 {
        let mut text = "未找到版本 ".to_owned();
        text.push_str(tag);
        text.push_str(" 对应的程序签名文件，请确认当前版本来自官方发布渠道");
        return Err(result(IntegrityStatus::SignatureNotFound, text, None));
    }
    if signatures.len() != 3 {
        let text = "当前 Release 的完整性签名不完整，无法可靠判断当前程序是否被篡改".to_owned();
        return Err(result(IntegrityStatus::SignatureNotFound, text, None));
    }
    if !are_readable(&signatures) {
        let text = "GitHub 签名文件解析失败，无法完成完整性校验".to_owned();
        return Err(result(IntegrityStatus::SignatureInvalid, text, None));
    }
    Ok(signatures)
}

/// What reading the running program led to.
#[derive(Debug)]
pub enum ProgramFile {
    Read(Vec<u8>),
    NotOpened(String),
    NotRead(String),
    /// The check itself was broken off.
    BrokenOff(String),
}

/// What is said of a program that could not be read.
pub open spec fn unread(file: ProgramFile) -> Seq<char> {
    match file {
        ProgramFile::Read(content) => seq![],
        ProgramFile::NotOpened(error) => "无法读取当前程序文件: "@ + error@,
        ProgramFile::NotRead(error) => "读取当前程序文件失败: "@ + error@,
        ProgramFile::BrokenOff(error) => "完整性校验线程异常，请稍后重试: "@ + error@,
    }
}

/// The first signature that cannot be checked against a stream, or their
/// number.
pub open spec fn unfit_position(key: Seq<char>, signatures: Seq<SignatureView>, i: int) -> int
    decreases signatures.len() - i,
{
    if i >= signatures.len() || i < 0 || stream_error(key, signatures[i].content) is Some {
        i
    } else {
        unfit_position(key, signatures, i + 1)
    }
}

/// What the outcomes for the signatures say of the program, from one on: the
/// first signature that fits, or the first that failed otherwise, decides.
pub open spec fn judged(
    names: Seq<Seq<char>>,
    outcomes: Seq<Result<bool, Seq<char>>>,
    i: int,
) -> IntegrityView
    decreases outcomes.len() - i,
{
    if i >= outcomes.len() || i < 0 {
        outcome(
            IntegrityStatus::Tampered,
            "签名与当前程序内容不一致，当前程序可能已被篡改"@,
        )
    } else {
        match outcomes[i] {
            Ok(true) => IntegrityView {
                status: IntegrityStatus::Verified,
                message: "文件完整性校验通过，当前程序安全"@,
                asset_name: Some(names[i]),
            },
            Ok(false) => judged(names, outcomes, i + 1),
            Err(error) => outcome(
                IntegrityStatus::SignatureInvalid,
                "签名 "@ + names[i] + " 校验失败: "@ + error,
            ),
        }
    }
}

pub open spec fn outcome_views(v: Seq<Result<bool, String>>) -> Seq<Result<bool, Seq<char>>> {
    Seq::new(v.len(), |i: int| outcome_view(v[i]))
}

/// What the outcomes for the signatures say of the program. `names` are those
/// of the programs that the signatures are for.
pub fn judge_outcomes(names: &Vec<String>, outcomes: &Vec<Result<bool, String>>) -> (r:
    IntegrityCheckResult)
    requires
        names@.len() == outcomes@.len(),
    ensures
        r@ == judged(text::texts(names@), outcome_views(outcomes@), 0),
{
    let ghost all = text::texts(names@);
    let ghost views = outcome_views(outcomes@);
    let mut i: usize = 0;
    while i < outcomes.len()
        invariant
            i <= outcomes@.len(),
            judged(all, views, 0) == judged(all, views, i as int),
        decreases outcomes@.len() - i,
    {
        assert(views[i as int] == outcome_view(outcomes@[i as int]));
        assert(all[i as int] == names@[i as int]@);
        match &outcomes[i] {
            Ok(valid) => {
                if *valid {
                    return result(
                        IntegrityStatus::Verified,
                        "文件完整性校验通过，当前程序安全".to_owned(),
                        Some(names[i].clone()),
                    );
                }
            },
            Err(error) => {
                let mut text = "签名 ".to_owned();
                text.push_str(names[i].as_str());
                text.push_str(" 校验失败: ");
                text.push_str(error.as_str());
                return result(IntegrityStatus::SignatureInvalid, text, None);
            },
        }
        i = i + 1;
    }
    result(
        IntegrityStatus::Tampered,
        "签名与当前程序内容不一致，当前程序可能已被篡改".to_owned(),
        None,
    )
}

pub open spec fn names_of(signatures: Seq<SignatureView>) -> Seq<Seq<char>> {
    Seq::new(signatures.len(), |i: int| signatures[i].asset_name)
}

/// The outcomes for the signatures on a program's content.
pub open spec fn outcomes_of(
    key: Seq<char>,
    signatures: Seq<SignatureView>,
    content: Seq<u8>,
) -> Seq<Result<bool, Seq<char>>> {
    Seq::new(signatures.len(), |i: int| stream_outcome(key, signatures[i].content, content))
}

/// What a check of a program against readable signatures leads to.
pub open spec fn checked(
    key: Seq<char>,
    signatures: Seq<SignatureView>,
    file: ProgramFile,
) -> IntegrityView {
    let unfit = unfit_position(key, signatures, 0);
    match file {
        ProgramFile::BrokenOff(error) => outcome(IntegrityStatus::LocalFileError, unread(file)),
        _ => if unfit < signatures.len() {
            outcome(
                IntegrityStatus::SignatureInvalid,
                "签名 "@ + signatures[unfit].asset_name + " 不支持流式校验: "@ + stream_error(
                    key,
                    signatures[unfit].content,
                )->0,
            )
        } else {
            match file {
                ProgramFile::Read(content) => judged(
                    names_of(signatures),
                    outcomes_of(key, signatures, content@),
                    0,
                ),
                _ => outcome(IntegrityStatus::LocalFileError, unread(file)),
            }
        },
    }
}

/// What a check of a program leads to: the key has to be readable, then the
/// signatures, then the program.
pub open spec fn integrity_of(tag: Seq<char>, fetched: Seq<FetchOutcome>, file: ProgramFile) ->
    IntegrityView {
    match key_text_of(UPDATER_PUBLIC_KEY@) {
        Err(reason) => outcome(IntegrityStatus::ConfigurationError, reason),
        Ok(key) => match usable_signatures(tag, fetched) {
            Err(result) => result,
            Ok(signatures) => checked(key, signatures, file),
        },
    }
}

fn verify_local_file(key: &str, signatures: &Vec<DownloadedSignature>, file: &ProgramFile) -> (r:
    IntegrityCheckResult)
    requires
        public_key_error(key@) is None,
        all_readable(signature_views(signatures@)),
    ensures
        r@ == checked(key@, signature_views(signatures@), *file),
{
    let ghost views = signature_views(signatures@);
    if let ProgramFile::BrokenOff(error) = file {
        return result(
            IntegrityStatus::LocalFileError,
            message("完整性校验线程异常，请稍后重试: ", error.as_str()),
            None,
        );
    }
    let mut i: usize = 0;
    while i < signatures.len()
        invariant
            i <= signatures@.len(),
            unfit_position(key@, views, 0) == unfit_position(key@, views, i as int),
            forall|j: int|
                0 <= j < i ==> stream_error(key@, (#[trigger] views[j]).content) is None,
        decreases signatures@.len() - i,
    {
        assert(views[i as int] == signatures@[i as int]@);
        if let Some(error) = find_stream_error(key, signatures[i].content.as_str()) {
            let mut text = "签名 ".to_owned();
            text.push_str(signatures[i].asset_name.as_str());
            text.push_str(" 不支持流式校验: ");
            text.push_str(error.as_str());
            return result(IntegrityStatus::SignatureInvalid, text, None);
        }
        i = i + 1;
    }
    match file {
        ProgramFile::Read(content) => {
            let mut names: Vec<String> = Vec::new();
            let mut outcomes: Vec<Result<bool, String>> = Vec::new();
            let mut k: usize = 0;
            while k < signatures.len()
                invariant
                    k <= signatures@.len(),
                    names@.len() == k,
                    outcomes@.len() == k,
                    forall|j: int| 0 <= j < k ==> (#[trigger] names@[j])@ == views[j].asset_name,
                    forall|j: int|
                        0 <= j < k ==> outcome_view(#[trigger] outcomes@[j]) == stream_outcome(
                            key@,
                            views[j].content,
                            content@,
                        ),
                decreases signatures@.len() - k,
            {
                assert(views[k as int] == signatures@[k as int]@);
                names.push(signatures[k].asset_name.clone());
                outcomes.push(verify_content(key, signatures[k].content.as_str(), content));
                k = k + 1;
            }
            assert(text::texts(names@) =~= names_of(views));
            assert(outcome_views(outcomes@) =~= outcomes_of(key@, views, content@));
            judge_outcomes(&names, &outcomes)
        },
        ProgramFile::NotOpened(error) => result(
            IntegrityStatus::LocalFileError,
            message("无法读取当前程序文件: ", error.as_str()),
            None,
        ),
        ProgramFile::NotRead(error) => result(
            IntegrityStatus::LocalFileError,
            message("读取当前程序文件失败: ", error.as_str()),
            None,
        ),
        ProgramFile::BrokenOff(error) => result(
            IntegrityStatus::LocalFileError,
            message("完整性校验线程异常，请稍后重试: ", error.as_str()),
            None,
        ),
    }
}

/// Checks the running program against the signatures of the release.
/// `fetched` is what fetching them led to, in the order of the programs' names;
/// it may end at the first failure.
pub fn verify_file_integrity(tag: &str, fetched: Vec<FetchOutcome>, file: &ProgramFile) -> (r:
    IntegrityCheckResult)
    requires
        fetched@.len() <= 3,
    ensures
        r@ == integrity_of(tag@, fetched@, *file),
{
    let key = match load_public_key() {
        Ok(key) => key,
        Err(reason) => {
            return result(IntegrityStatus::ConfigurationError, reason, None);
        },
    };
    match check_signatures(tag, fetched) {
        Ok(signatures) => verify_local_file(key.as_str(), &signatures, file),
        Err(result) => result,
    }
}

/// Where outcomes are judged as tampering, none of the signatures fits.
proof fn lemma_tampered_means_none_fits(
    names: Seq<Seq<char>>,
    outcomes: Seq<Result<bool, Seq<char>>>,
    from: int,
)
    requires
        0 <= from <= outcomes.len(),
    ensures
        judged(names, outcomes, from).status == IntegrityStatus::Tampered ==> forall|i: int|
            from <= i < outcomes.len() ==> #[trigger] outcomes[i] == Ok::<bool, Seq<char>>(false),
        judged(names, outcomes, from).status == IntegrityStatus::Verified ==> exists|i: int|
            from <= i < outcomes.len() && #[trigger] outcomes[i] == Ok::<bool, Seq<char>>(true)
                && judged(names, outcomes, from).asset_name == Some(names[i]),
    decreases outcomes.len() - from,
{
    if from < outcomes.len() && outcomes[from] == Ok::<bool, Seq<char>>(false) {
        lemma_tampered_means_none_fits(names, outcomes, from + 1);
    } else if from < outcomes.len() {
        assert(outcomes[from] == outcomes[from]);
    }
}

/// A program counts as tampered with only where the signatures of all three
/// programs of the release were there and readable, the program was read, and
/// none of the signatures fits it. A failure of the network, a missing or
/// unreadable signature, or an unreadable file never counts as tampering.
pub proof fn law_tampering_is_never_claimed_without_proof(
    tag: Seq<char>,
    fetched: Seq<FetchOutcome>,
    file: ProgramFile,
)
    requires
        integrity_of(tag, fetched, file).status == IntegrityStatus::Tampered,
    ensures
        key_text_of(UPDATER_PUBLIC_KEY@) is Ok,
        usable_signatures(tag, fetched) matches Ok(signatures) && signatures.len() == 3
            && all_readable(signatures) && (file matches ProgramFile::Read(content)
            && forall|i: int|
            0 <= i < 3 ==> #[trigger] outcomes_of(
                key_text_of(UPDATER_PUBLIC_KEY@)->Ok_0,
                signatures,
                content@,
            )[i] == Ok::<bool, Seq<char>>(false)),
{
    let key = key_text_of(UPDATER_PUBLIC_KEY@)->Ok_0;
    let signatures = usable_signatures(tag, fetched)->Ok_0;
    let content = file->Read_0;
    lemma_tampered_means_none_fits(
        names_of(signatures),
        outcomes_of(key, signatures, content@),
        0,
    );
}

/// A program counts as verified only where one of the release's signatures fits
/// its content; that signature's program is named.
pub proof fn law_verified_means_signed(
    tag: Seq<char>,
    fetched: Seq<FetchOutcome>,
    file: ProgramFile,
)
    requires
        integrity_of(tag, fetched, file).status == IntegrityStatus::Verified,
    ensures
        key_text_of(UPDATER_PUBLIC_KEY@) is Ok,
        usable_signatures(tag, fetched) matches Ok(signatures) && (
        file matches ProgramFile::Read(content) && exists|i: int|
            0 <= i < signatures.len() && integrity_of(tag, fetched, file).asset_name == Some(
                (#[trigger] signatures[i]).asset_name,
            ) && stream_outcome(
                key_text_of(UPDATER_PUBLIC_KEY@)->Ok_0,
                signatures[i].content,
                content@,
            ) == Ok::<bool, Seq<char>>(true)),
{
    let key = key_text_of(UPDATER_PUBLIC_KEY@)->Ok_0;
    let signatures = usable_signatures(tag, fetched)->Ok_0;
    let content = file->Read_0;
    let outcomes = outcomes_of(key, signatures, content@);
    lemma_tampered_means_none_fits(names_of(signatures), outcomes, 0);
    let i = choose|i: int|
        0 <= i < outcomes.len() && #[trigger] outcomes[i] == Ok::<bool, Seq<char>>(true) && judged(
            names_of(signatures),
            outcomes,
            0,
        ).asset_name == Some(names_of(signatures)[i]);
    assert(signatures[i].asset_name == names_of(signatures)[i]);
}

} // verus!
