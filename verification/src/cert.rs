//! Certificates for development and tests: making one, and deciding whether to use the files that
//! are there.

use vstd::prelude::*;
use vstd::string::StringExecFns;

use crate::text;

verus! {

/// The error of the certificate generator, seen as opaque.
#[verifier::external_type_specification]
#[verifier::external_body]
pub struct ExRcgenError(rcgen::Error);

/// Whether `rcgen::generate_simple_self_signed` may make this certificate and this private key
/// for these names.
pub uninterp spec fn self_signed_for(
    names: Seq<Seq<char>>,
    cert: Seq<u8>,
    key: Seq<u8>,
) -> bool;

/// Calls `rcgen::generate_simple_self_signed` for the names, and takes the certificate as DER and
/// the private key as PKCS#8 DER. The key is random, so two calls differ; all that is said is
/// that the two belong to a certificate for these names, and that the certificate is not empty:
/// it is a DER sequence. When it fails is not said.
#[verifier::external_body]
fn generate(names: Vec<String>) -> (made: Result<(Vec<u8>, Vec<u8>), rcgen::Error>)
    ensures
        made matches Ok((cert, key)) ==> self_signed_for(text::views(names@), cert@, key@)
            && cert@.len() > 0,
{
    let made = rcgen::generate_simple_self_signed(names)?;
    Ok((made.cert.der().to_vec(), made.signing_key.serialize_der()))
}

/// Why there is no certificate.
#[derive(Debug, Clone, Copy, PartialEq, Eq, Structural)]
pub enum CertError {
    /// The generator failed.
    Generation,
}

/// The names that a certificate made here is for.
pub open spec fn own_names() -> Seq<Seq<char>> {
    seq!["localhost"@, "127.0.0.1"@, "[::1]"@]
}

/// The names that a certificate made here is for: those of the local host.
pub fn local_names() -> (names: Vec<String>)
    ensures
        text::views(names@) == own_names(),
{
    let mut names: Vec<String> = Vec::new();
    names.push("localhost".to_owned());
    names.push("127.0.0.1".to_owned());
    names.push("[::1]".to_owned());
    assert(text::views(names@) =~= own_names());
    names
}

/// Makes a self-signed certificate for the local host: the certificate (DER) and its private key
/// (PKCS#8 DER). For development and tests only.
pub fn self_signed_der() -> (made: Result<(Vec<u8>, Vec<u8>), CertError>)
    ensures
        made matches Ok((cert, key)) ==> self_signed_for(own_names(), cert@, key@) && cert@.len()
            > 0,
{
    certificate_from(generate(local_names()))
}

/// The certificate and the key that the generator made, as they are, or that it failed.
pub fn certificate_from(made: Result<(Vec<u8>, Vec<u8>), rcgen::Error>) -> (taken: Result<
    (Vec<u8>, Vec<u8>),
    CertError,
>)
    ensures
        match made {
            Ok(pair) => taken == Ok::<(Vec<u8>, Vec<u8>), CertError>(pair),
            Err(_) => taken == Err::<(Vec<u8>, Vec<u8>), CertError>(CertError::Generation),
        },
{
    match made {
        Ok(pair) => Ok(pair),
        Err(_) => Err(CertError::Generation),
    }
}

/// The view of a [`FileRead`].
pub ghost enum FileReadView {
    Bytes(Seq<u8>),
    NotFound,
    Failed(Seq<char>),
}

/// The outcome of reading a file.
#[derive(Debug, Clone, PartialEq, Eq)]
pub enum FileRead {
    Bytes(Vec<u8>),
    /// There is no such file.
    NotFound,
    /// Anything else that went wrong.
    Failed(String),
}

impl View for FileRead {
    type V = FileReadView;

    open spec fn view(&self) -> FileReadView {
        match self {
            FileRead::Bytes(bytes) => FileReadView::Bytes(bytes@),
            FileRead::NotFound => FileReadView::NotFound,
            FileRead::Failed(why) => FileReadView::Failed(why@),
        }
    }
}

/// The view of a [`CertPlan`].
pub ghost enum CertPlanView {
    Use { cert: Seq<u8>, key: Seq<u8> },
    Generate,
    Fail(Seq<char>),
}

/// What to do about the certificate and its key.
#[derive(Debug, Clone, PartialEq, Eq)]
pub enum CertPlan {
    /// Both files are there.
    Use { cert: Vec<u8>, key: Vec<u8> },
    /// One is to be made and written to the two files.
    Generate,
    /// The files cannot be used.
    Fail(String),
}

impl View for CertPlan {
    type V = CertPlanView;

    open spec fn view(&self) -> CertPlanView {
        match self {
            CertPlan::Use { cert, key } => CertPlanView::Use { cert: cert@, key: key@ },
            CertPlan::Generate => CertPlanView::Generate,
            CertPlan::Fail(why) => CertPlanView::Fail(why@),
        }
    }
}

/// What to do, given the outcome of reading the two files.
pub open spec fn plan(
    cert_file: Seq<char>,
    key_file: Seq<char>,
    cert: FileReadView,
    key: FileReadView,
) -> CertPlanView {
    if cert is NotFound || key is NotFound {
        CertPlanView::Generate
    } else {
        match (cert, key) {
            (FileReadView::Bytes(c), FileReadView::Bytes(k)) => CertPlanView::Use {
                cert: c,
                key: k,
            },
            (FileReadView::Failed(ce), FileReadView::Failed(ke)) => CertPlanView::Fail(
                "无法读取证书/密钥：cert="@ + ce + "；key="@ + ke,
            ),
            (FileReadView::Failed(ce), _) => CertPlanView::Fail(
                "读取证书 "@ + cert_file + " 失败："@ + ce,
            ),
            (_, FileReadView::Failed(ke)) => CertPlanView::Fail(
                "读取密钥 "@ + key_file + " 失败："@ + ke,
            ),
            _ => CertPlanView::Generate,
        }
    }
}

/// Decides what to do, given the outcome of reading the two files: files that are there are used,
/// and where one is missing, a new pair is made.
pub fn load_or_generate(
    cert_file: &str,
    key_file: &str,
    cert: FileRead,
    key: FileRead,
) -> (decided: CertPlan)
    ensures
        decided@ == plan(cert_file@, key_file@, cert@, key@),
{
    match (cert, key) {
        (FileRead::NotFound, _) | (_, FileRead::NotFound) => CertPlan::Generate,
        (FileRead::Bytes(cert), FileRead::Bytes(key)) => CertPlan::Use { cert, key },
        (FileRead::Failed(ce), FileRead::Failed(ke)) => {
            let mut t = text::join3("无法读取证书/密钥：cert=", ce.as_str(), "；key=");
            t.append(ke.as_str());
            CertPlan::Fail(t)
        },
        (FileRead::Failed(ce), FileRead::Bytes(_)) => {
            let mut t = text::join3("读取证书 ", cert_file, " 失败：");
            t.append(ce.as_str());
            CertPlan::Fail(t)
        },
        (FileRead::Bytes(_), FileRead::Failed(ke)) => {
            let mut t = text::join3("读取密钥 ", key_file, " 失败：");
            t.append(ke.as_str());
            CertPlan::Fail(t)
        },
    }
}

/// What is to be written of a new pair: the two files and their contents.
pub open spec fn pair_files(
    cert_file: Seq<char>,
    key_file: Seq<char>,
    cert: Seq<u8>,
    key: Seq<u8>,
) -> Seq<(Seq<char>, Seq<u8>)> {
    seq![(cert_file, cert), (key_file, key)]
}

/// What is to be written of a new pair: the two files and their contents, in order.
pub fn files_to_write(cert_file: &str, key_file: &str, cert: &Vec<u8>, key: &Vec<u8>) -> (files: Vec<
    (String, Vec<u8>),
>)
    ensures
        text::views(files@) == pair_files(cert_file@, key_file@, cert@, key@),
{
    let mut files: Vec<(String, Vec<u8>)> = Vec::new();
    files.push((cert_file.to_owned(), copy_bytes(cert)));
    files.push((key_file.to_owned(), copy_bytes(key)));
    assert(text::views(files@) =~= pair_files(cert_file@, key_file@, cert@, key@));
    files
}

/// Another vector with the same bytes.
fn copy_bytes(bytes: &Vec<u8>) -> (copied: Vec<u8>)
    ensures
        copied@ == bytes@,
{
    let mut copied: Vec<u8> = Vec::new();
    copied.extend_from_slice(bytes.as_slice());
    assert(copied@ =~= bytes@);
    copied
}

/// The files of a file system, by path.
pub type Files = Map<Seq<char>, Seq<u8>>;

/// What reading a file gives, where nothing but its absence can stand in the way.
pub open spec fn contents(files: Files, path: Seq<char>) -> FileReadView {
    if files.contains_key(path) {
        FileReadView::Bytes(files[path])
    } else {
        FileReadView::NotFound
    }
}

/// The files once some have been written, in order.
pub open spec fn written(files: Files, writes: Seq<(Seq<char>, Seq<u8>)>) -> Files
    decreases writes.len(),
{
    if writes.len() == 0 {
        files
    } else {
        written(files, writes.drop_last()).insert(writes.last().0, writes.last().1)
    }
}

/// A server looks for its pair, with another one at hand that it could make: the files
/// afterwards, and the pair that it uses.
pub open spec fn looked_for(
    files: Files,
    cert_file: Seq<char>,
    key_file: Seq<char>,
    made: (Seq<u8>, Seq<u8>),
) -> (Files, Option<(Seq<u8>, Seq<u8>)>) {
    match plan(cert_file, key_file, contents(files, cert_file), contents(files, key_file)) {
        CertPlanView::Use { cert, key } => (files, Some((cert, key))),
        CertPlanView::Generate => (
            written(files, pair_files(cert_file, key_file, made.0, made.1)),
            Some(made),
        ),
        CertPlanView::Fail(_) => (files, None),
    }
}

/// A pair is made once. Where one of two different files is missing, a pair is made and used, and
/// the two files then hold the certificate and the key exactly as they were made. The next time
/// the same pair is used, byte for byte, whatever pair could be made then, and the files stay as
/// they are.
pub proof fn law_certificate_is_made_once(
    files: Files,
    cert_file: Seq<char>,
    key_file: Seq<char>,
    made: (Seq<u8>, Seq<u8>),
    later: (Seq<u8>, Seq<u8>),
)
    requires
        cert_file != key_file,
        !files.contains_key(cert_file) || !files.contains_key(key_file),
    ensures
        ({
            let (after, used) = looked_for(files, cert_file, key_file, made);
            &&& used == Some(made)
            &&& contents(after, cert_file) == FileReadView::Bytes(made.0)
            &&& contents(after, key_file) == FileReadView::Bytes(made.1)
            &&& looked_for(after, cert_file, key_file, later) == (after, Some(made))
        }),
{
    let writes = pair_files(cert_file, key_file, made.0, made.1);
    reveal_with_fuel(written, 3);
    assert(writes.drop_last() =~= seq![(cert_file, made.0)]);
    assert(writes.drop_last().drop_last() =~= Seq::empty());
}

/// A missing file leads to a new pair, whatever became of the other one; two files that could be
/// read are used as they are.
pub proof fn law_plan(
    cert_file: Seq<char>,
    key_file: Seq<char>,
    cert: Seq<u8>,
    key: Seq<u8>,
    other: FileReadView,
)
    ensures
        plan(cert_file, key_file, FileReadView::Bytes(cert), FileReadView::Bytes(key)) == (
        CertPlanView::Use { cert, key }),
        plan(cert_file, key_file, FileReadView::NotFound, other) == CertPlanView::Generate,
        plan(cert_file, key_file, other, FileReadView::NotFound) == CertPlanView::Generate,
{
}

/// Files that cannot be read, while none is missing, are reported with what went wrong: of the
/// certificate by its path, of the key by its path, and of both together.
pub proof fn law_unreadable_files_are_reported(
    cert_file: Seq<char>,
    key_file: Seq<char>,
    bytes: Seq<u8>,
    why: Seq<char>,
    other: Seq<char>,
)
    ensures
        plan(cert_file, key_file, FileReadView::Failed(why), FileReadView::Bytes(bytes))
            == CertPlanView::Fail("读取证书 "@ + cert_file + " 失败："@ + why),
        plan(cert_file, key_file, FileReadView::Bytes(bytes), FileReadView::Failed(why))
            == CertPlanView::Fail("读取密钥 "@ + key_file + " 失败："@ + why),
        plan(cert_file, key_file, FileReadView::Failed(why), FileReadView::Failed(other))
            == CertPlanView::Fail("无法读取证书/密钥：cert="@ + why + "；key="@ + other),
{
}

/// A certificate made here is for the local host and for nobody else: by its name, and by its
/// address of either kind, each once.
pub proof fn law_certificates_are_local(name: Seq<char>)
    ensures
        own_names().contains(name) <==> name == "localhost"@ || name == "127.0.0.1"@ || name
            == "[::1]"@,
        own_names().no_duplicates(),
{
    reveal_strlit("localhost");
    reveal_strlit("127.0.0.1");
    reveal_strlit("[::1]");
    assert("localhost"@[0] != "127.0.0.1"@[0]);
    assert("localhost"@[0] != "[::1]"@[0]);
    assert("127.0.0.1"@[0] != "[::1]"@[0]);
    assert(own_names()[0] == "localhost"@);
    assert(own_names()[1] == "127.0.0.1"@);
    assert(own_names()[2] == "[::1]"@);
}

} // verus!
