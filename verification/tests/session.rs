use export_findmy::session::{account_ids, password_hash, should_sync_again, DEFAULT_ESCROW_HOST};
use plist::{Dictionary, Value};

fn hex(bytes: &[u8]) -> String {
    bytes.iter().map(|b| format!("{:02x}", b)).collect()
}

#[test]
fn the_password_is_hashed_with_sha256() {
    assert_eq!(
        hex(&password_hash("hello world")),
        "b94d27b9934d3e08a52e52d7da7dabfac484efe37a5380ee9088f7ace2efcde9"
    );
    assert_eq!(
        hex(&password_hash("")),
        "e3b0c44298fc1c149afbf4c8996fb92427ae41e4649b934ca495991b7852b855"
    );
    assert_eq!(password_hash("pässwörd").len(), 32);
}

fn spd(dsid: Value, adsid: Value) -> Dictionary {
    let mut d = Dictionary::new();
    d.insert("other".to_string(), Value::Boolean(true));
    d.insert("DsPrsId".to_string(), dsid);
    d.insert("adsid".to_string(), adsid);
    d
}

#[test]
fn account_ids_are_found() {
    let d = spd(Value::Integer(10987654321u64.into()), Value::String("000-ab".to_string()));
    let ids = account_ids(&d).unwrap();
    assert_eq!(ids.dsid, "10987654321");
    assert_eq!(ids.adsid, "000-ab");
    let d = spd(Value::Integer(u64::MAX.into()), Value::String(String::new()));
    assert_eq!(account_ids(&d).unwrap().dsid, "18446744073709551615");
}

#[test]
fn missing_or_strange_account_ids_are_refused() {
    assert!(account_ids(&Dictionary::new()).is_none());
    let text = || Value::String("x".to_string());
    assert!(account_ids(&spd(text(), text())).is_none());
    assert!(account_ids(&spd(Value::Integer((-1i64).into()), text())).is_none());
    assert!(account_ids(&spd(Value::Integer(1i64.into()), Value::Data(vec![1]))).is_none());
    let mut d = spd(Value::Integer(1i64.into()), text());
    d.remove("adsid");
    assert!(account_ids(&d).is_none());
}

#[test]
fn records_are_fetched_again_once() {
    assert!(should_sync_again(1, true));
    assert!(!should_sync_again(1, false));
    assert!(!should_sync_again(2, true));
}

#[test]
fn the_default_escrow_host_is_named() {
    assert_eq!(DEFAULT_ESCROW_HOST, "https://p97-escrowproxy.icloud.com:443");
}
