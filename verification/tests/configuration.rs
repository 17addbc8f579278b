//! The configuration, certificates, the clock, passwords and the first account.

use sinrana::auth::{generate_token, hash_password, hash_with_salt, token_from, verify_password};
use sinrana::cert::{
    certificate_from, files_to_write, load_or_generate, local_names, self_signed_der, CertError, CertPlan, FileRead,
};
use sinrana::clock::{millis, now_ms};
use sinrana::config::{CertSource, Overrides};
use sinrana::db::{ensure_admin, DbWrite};
use sinrana::Config;

fn nothing() -> Overrides {
    Overrides {
        bind: None,
        default_room: None,
        db: None,
        cert: None,
        key: None,
        allow_register: None,
        force_account: None,
        lock_server: false,
        record: false,
        web: None,
        web_addr: None,
    }
}

#[test]
fn defaults_are_sane() {
    let cfg = Config::default();
    assert!(cfg.allow_register);
    assert!(cfg.force_account);
    assert!(cfg.web_enabled);
    assert!(!cfg.lock_server);
    assert!(!cfg.record_history);
    assert_eq!(cfg.web_addr.to_string(), "127.0.0.1:8090");
}

#[test]
fn the_other_defaults() {
    let cfg = Config::default();
    assert_eq!(cfg.bind_addr, "127.0.0.1:8080");
    assert_eq!(cfg.default_room, "Sinrana! Chatting Room");
    assert_eq!(cfg.db_path, "server/data/sinrana.sqlite");
    assert_eq!(cfg.data_dir, "server/data");
    assert_eq!(cfg.cert_file, None);
    assert_eq!(cfg.key_file, None);
}

#[test]
fn runtime_fields_classification() {
    let cfg = Config::default();
    let rt = cfg.runtime_fields();
    assert!(rt.contains(&"allow_register"));
    assert!(rt.contains(&"default_room"));
    // Fields that need a restart are not in the list.
    assert!(!rt.contains(&"bind_addr"));
    assert!(!rt.contains(&"web_addr"));
}

#[test]
fn the_runtime_fields_are_exactly_six() {
    assert_eq!(
        Config::default().runtime_fields(),
        vec![
            "default_room",
            "allow_register",
            "force_account",
            "lock_server",
            "record_history",
            "web_enabled"
        ]
    );
}

#[test]
fn the_command_line_wins_over_the_file() {
    let mut file = Config::default();
    file.default_room = "File".to_string();
    file.lock_server = true;
    file.web_enabled = true;
    let mut o = nothing();
    o.default_room = Some("Line".to_string());
    o.bind = Some("127.0.0.1:9".to_string());
    o.cert = Some("c".to_string());
    o.web = Some(false);
    o.record = true;
    let cfg = file.apply_overrides(o);
    assert_eq!(cfg.default_room, "Line");
    assert_eq!(cfg.bind_addr, "127.0.0.1:9");
    assert_eq!(cfg.cert_file, Some("c".to_string()));
    assert!(!cfg.web_enabled);
    assert!(cfg.record_history);
    // A flag that is not given does not unlock.
    assert!(cfg.lock_server);
    assert_eq!(cfg.db_path, Config::default().db_path);
}

#[test]
fn an_empty_command_line_changes_nothing() {
    assert_eq!(Config::default().apply_overrides(nothing()), Config::default());
}

#[test]
fn a_live_edit_changes_the_runtime_fields_only() {
    let mut cfg = Config::default();
    let mut incoming = Config::default();
    incoming.default_room = "Lounge".to_string();
    incoming.lock_server = true;
    incoming.web_enabled = false;
    incoming.bind_addr = "127.0.0.1:1".to_string();
    incoming.db_path = "other".to_string();
    cfg.apply_runtime(&incoming);
    assert_eq!(cfg.default_room, "Lounge");
    assert!(cfg.lock_server);
    assert!(!cfg.web_enabled);
    assert_eq!(cfg.bind_addr, Config::default().bind_addr);
    assert_eq!(cfg.db_path, Config::default().db_path);
}

#[test]
fn the_data_is_where_the_database_is() {
    let mut cfg = Config::default();
    for (db, dir) in [
        ("a/b.sqlite", "a"),
        ("b.sqlite", ""),
        ("", "."),
        ("x/y/z", "x/y"),
        ("/var/lib/b.sqlite", "/var/lib"),
        ("/b.sqlite", "/"),
        ("/", "."),
        ("server/data/sinrana.sqlite", "server/data"),
    ] {
        cfg.db_path = db.to_string();
        cfg.settle_data_dir();
        assert_eq!(cfg.data_dir, dir, "{db}");
        assert_eq!(cfg.db_path, db);
    }
    cfg.set_data_dir(Some("d".to_string()));
    assert_eq!(cfg.data_dir, "d");
    cfg.set_data_dir(None);
    assert_eq!(cfg.data_dir, ".");
}

#[test]
fn certificate_files_come_in_pairs() {
    let mut cfg = Config::default();
    assert_eq!(cfg.cert_source(), CertSource::Fresh);
    cfg.cert_file = Some("c".to_string());
    assert_eq!(cfg.cert_source(), CertSource::Fresh);
    cfg.key_file = Some("k".to_string());
    assert_eq!(
        cfg.cert_source(),
        CertSource::Files { cert: "c".to_string(), key: "k".to_string() }
    );
}

#[test]
fn files_that_are_there_are_used() {
    let plan = load_or_generate("c", "k", FileRead::Bytes(vec![1]), FileRead::Bytes(vec![2]));
    assert_eq!(plan, CertPlan::Use { cert: vec![1], key: vec![2] });
}

#[test]
fn a_missing_file_makes_a_new_pair() {
    let failed = || FileRead::Failed("denied".to_string());
    for (c, k) in [
        (FileRead::NotFound, FileRead::NotFound),
        (FileRead::NotFound, FileRead::Bytes(vec![2])),
        (FileRead::Bytes(vec![1]), FileRead::NotFound),
        (FileRead::NotFound, failed()),
        (failed(), FileRead::NotFound),
    ] {
        assert_eq!(load_or_generate("c", "k", c, k), CertPlan::Generate);
    }
}

#[test]
fn a_file_that_cannot_be_read_is_reported() {
    let failed = |why: &str| FileRead::Failed(why.to_string());
    assert_eq!(
        load_or_generate("c", "k", failed("x"), failed("y")),
        CertPlan::Fail("无法读取证书/密钥：cert=x；key=y".to_string())
    );
    assert_eq!(
        load_or_generate("c", "k", failed("x"), FileRead::Bytes(vec![])),
        CertPlan::Fail("读取证书 c 失败：x".to_string())
    );
    assert_eq!(
        load_or_generate("c", "k", FileRead::Bytes(vec![]), failed("y")),
        CertPlan::Fail("读取密钥 k 失败：y".to_string())
    );
}

#[test]
fn a_self_signed_certificate_is_made() {
    assert_eq!(local_names(), vec!["localhost", "127.0.0.1", "[::1]"]);
    let (cert, key) = self_signed_der().unwrap();
    let (other, other_key) = self_signed_der().unwrap();
    // A DER sequence, with the name inside.
    assert_eq!(cert[0], 0x30);
    assert!(cert.windows(9).any(|w| w == b"localhost"));
    assert_eq!(key[0], 0x30);
    assert_ne!(cert, other);
    assert_ne!(key, other_key);
}

#[test]
fn a_pair_is_made_once() {
    let (cert, key) = self_signed_der().unwrap();
    assert_eq!(
        load_or_generate("c", "k", FileRead::NotFound, FileRead::NotFound),
        CertPlan::Generate
    );
    let files = files_to_write("c", "k", &cert, &key);
    assert_eq!(files, vec![("c".to_string(), cert.clone()), ("k".to_string(), key.clone())]);
    let read = |path: &str| match files.iter().find(|(p, _)| p == path) {
        Some((_, bytes)) => FileRead::Bytes(bytes.clone()),
        None => FileRead::NotFound,
    };
    assert_eq!(load_or_generate("c", "k", read("c"), read("k")), CertPlan::Use { cert, key });
}

#[test]
fn a_password_is_accepted_by_its_hash_alone() {
    let hash = hash_password("secret").unwrap();
    assert!(hash.starts_with("$argon2id$"));
    assert!(verify_password("secret", &hash));
    assert!(!verify_password("Secret", &hash));
    assert!(!verify_password("secret", "secret"));
}

#[test]
fn a_hash_with_too_many_lanes_accepts_nothing() {
    let hash = hash_with_salt("secret", &[1u8; 16]).unwrap();
    assert!(hash.contains(",p=1$"));
    for lanes in ["0", "2", "16777216", "99999999", "100000000", "536870912", "4294967295", "4294967296"] {
        let other = hash.replace(",p=1$", &format!(",p={lanes}$"));
        assert!(!verify_password("secret", &other), "{lanes}");
    }
}

#[test]
fn texts_that_are_no_hash_accept_nothing() {
    let hash = hash_with_salt("secret", &[1u8; 16]).unwrap();
    for text in ["", "$", "$argon2id$", "argon2id", "$2b$12$abc", &hash[1..], &format!(" {hash}")] {
        assert!(!verify_password("secret", text), "{text}");
        assert!(!verify_password("", text), "{text}");
    }
    // A field is missing, is one too many, or is not of the form.
    let fields: Vec<&str> = hash.split('$').collect();
    assert_eq!(fields.len(), 6);
    let (salt, out) = (fields[4], fields[5]);
    for text in [
        format!("$argon2id$v=19$m=19456,t=2,p=1${salt}"),
        format!("$argon2id$v=19$m=19456,t=2,p=1$${out}"),
        format!("$argon2id$v=19$m=19456,t=2,p=1${salt}$"),
        format!("{hash}$x"),
        format!("$argon2id$v=18$m=19456,t=2,p=1${salt}${out}"),
        format!("$argon2id$v=19$m=19456,t=2,q=1${salt}${out}"),
        format!("$argon2id$v=19$m=19456,t=2,p=${salt}${out}"),
        format!("$argon2id$v=19$m=19456,,t=2,p=1${salt}${out}"),
        format!("$argon2id$v=19$m=19456,t=2,p=1${salt}${out}="),
        format!("$argon2$v=19$m=19456,t=2,p=1${salt}${out}"),
    ] {
        assert!(!verify_password("secret", &text), "{text}");
    }
    // The version and the default parameters may be left out.
    assert!(verify_password("secret", &format!("$argon2id$m=19456,t=2,p=1${salt}${out}")));
    assert!(verify_password("secret", &format!("$argon2id${salt}${out}")));
}

#[test]
fn the_salt_makes_the_hash() {
    let a = hash_with_salt("secret", &[1u8; 16]).unwrap();
    let b = hash_with_salt("secret", &[1u8; 16]).unwrap();
    let c = hash_with_salt("secret", &[2u8; 16]).unwrap();
    assert_eq!(a, b);
    assert_ne!(a, c);
    assert!(a.contains("AQEBAQEBAQEBAQEBAQEBAQ"));
}

#[test]
fn tokens_are_hexadecimal_and_differ() {
    let a = generate_token().unwrap();
    let b = generate_token().unwrap();
    assert_eq!(a.len(), 64);
    assert!(a.chars().all(|c| c.is_ascii_digit() || ('a'..='f').contains(&c)));
    assert_ne!(a, b);
}

#[test]
fn a_token_shows_its_bytes() {
    assert_eq!(token_from(Ok(vec![0x00, 0xab, 0x7f])), Some("00ab7f".to_string()));
    assert_eq!(token_from(Err(rand::rngs::SysError::UNSUPPORTED)), None);
}

#[test]
fn a_pair_that_was_made_is_taken_as_it_is() {
    assert_eq!(certificate_from(Ok((vec![1], vec![2]))), Ok((vec![1], vec![2])));
    assert_eq!(
        certificate_from(Err(rcgen::Error::CouldNotParseCertificate)),
        Err(CertError::Generation)
    );
}

#[test]
fn milliseconds_of_a_duration() {
    assert_eq!(millis(None), 0);
    assert_eq!(millis(Some((0, 999_999))), 0);
    assert_eq!(millis(Some((2, 3_500_000))), 2003);
    assert_eq!(millis(Some((1_700_000_000, 999_999_999))), 1_700_000_000_999);
}

#[test]
fn the_clock_runs() {
    // Later than the year 2020.
    let a = now_ms();
    assert!(a > 1_577_836_800_000);
    assert!(now_ms() >= a);
}

#[test]
fn the_first_account_is_made_once() {
    assert_eq!(ensure_admin(true, "admin").unwrap(), None);
    match ensure_admin(false, "admin").unwrap() {
        Some(DbWrite::CreateUser { username, password_hash, role }) => {
            assert_eq!(username, "admin");
            assert_eq!(role, "admin");
            assert!(verify_password("admin", &password_hash));
        }
        other => panic!("unexpected: {other:?}"),
    }
}
