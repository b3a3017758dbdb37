use game_client::pack::{
    check_pack_bytes, check_pack_digest, find_pack_record, hex_lower_string, sha256_hex, Manifest, Pack, PackAssetMeta, PackRecord,
};
use game_client::text::push_decimal;

fn sgpk(header: &str, payload: &[u8]) -> Vec<u8> {
    let mut v = b"SGPK".to_vec();
    v.extend_from_slice(&(header.len() as u32).to_le_bytes());
    v.extend_from_slice(header.as_bytes());
    v.extend_from_slice(payload);
    v
}

fn meta(id: &str, offset: u64, size: u64) -> PackAssetMeta {
    PackAssetMeta { id: id.to_string(), offset, size }
}

#[test]
fn pack_framing_errors() {
    assert_eq!(Pack::header_span(b"SGP").err().unwrap(), "pack too short");
    assert_eq!(
        Pack::header_span(b"XGPK\0\0\0\0").err().unwrap(),
        "bad pack magic (expected SGPK)"
    );
    assert_eq!(
        Pack::header_span(b"SGPK\x05\0\0\0abc").err().unwrap(),
        "pack header truncated"
    );
    assert_eq!(Pack::header_span(b"SGPK\x02\0\0\0{}").unwrap(), 10);
}

#[test]
fn pack_lookup_returns_asset_bytes() {
    let bytes = sgpk("{}", b"helloworld");
    let end = Pack::header_span(&bytes).unwrap();
    assert_eq!(end, 10);
    let pack = Pack::from_parts(&bytes, end, vec![meta("a", 0, 5), meta("b", 5, 5), meta("empty", 10, 0)]).unwrap();
    assert_eq!(pack.get("a").unwrap(), b"hello");
    assert_eq!(pack.get("b").unwrap(), b"world");
    assert_eq!(pack.get("empty").unwrap(), b"");
    assert_eq!(pack.get("c").err().unwrap(), "pack missing asset c");
}

#[test]
fn pack_index_errors() {
    let bytes = sgpk("{}", b"0123");
    let end = Pack::header_span(&bytes).unwrap();
    assert_eq!(
        Pack::from_parts(&bytes, end, vec![meta("x", 2, 3)]).err().unwrap(),
        "asset x out of range"
    );
    assert_eq!(
        Pack::from_parts(&bytes, end, vec![meta("x", 0, 1), meta("x", 1, 1)]).err().unwrap(),
        "duplicate asset id x"
    );
    assert_eq!(
        Pack::from_parts(&bytes, end, vec![meta("big", u64::MAX, 2)]).err().unwrap(),
        "asset big size overflow"
    );
    assert_eq!(
        Pack::from_parts(&bytes, end, vec![meta("x", 0, 1), meta("y", 9, 1), meta("x", 0, 1)])
            .err()
            .unwrap(),
        "asset y out of range"
    );
}

#[test]
fn sha256_hex_of_known_inputs() {
    assert_eq!(
        sha256_hex(b"abc"),
        "ba7816bf8f01cfea414140de5dae2223b00361a396177a9cb410ff61f20015ad"
    );
    assert_eq!(
        sha256_hex(b""),
        "e3b0c44298fc1c149afbf4c8996fb92427ae41e4649b934ca495991b7852b855"
    );
}

#[test]
fn pack_bytes_checked_against_record() {
    let rec = PackRecord {
        id: "core".to_string(),
        url: "/core.sgpk".to_string(),
        hash: "ba7816bf8f01cfea414140de5dae2223b00361a396177a9cb410ff61f20015ad".to_string(),
        size: 3,
    };
    assert!(check_pack_bytes("core", &rec, b"abc").is_ok());
    assert_eq!(
        check_pack_bytes("core", &rec, b"abcd").err().unwrap(),
        "pack core size mismatch: got 4 expected 3"
    );
    assert_eq!(
        check_pack_bytes("core", &rec, b"abd").err().unwrap(),
        "pack core hash mismatch"
    );
}

#[test]
fn manifest_lookup() {
    let m = Manifest {
        packs: vec![
            PackRecord { id: "a".into(), url: "/a".into(), hash: "h1".into(), size: 1 },
            PackRecord { id: "b".into(), url: "/b".into(), hash: "h2".into(), size: 2 },
            PackRecord { id: "b".into(), url: "/b2".into(), hash: "h3".into(), size: 3 },
        ],
    };
    assert_eq!(find_pack_record(&m, "b").unwrap().url, "/b");
    assert_eq!(find_pack_record(&m, "z").err().unwrap(), "manifest missing pack z");
}

#[test]
fn decimal_text() {
    let mut s = String::from("n=");
    push_decimal(&mut s, 0);
    push_decimal(&mut s, 1234567890);
    assert_eq!(s, "n=01234567890");
    let mut t = String::new();
    push_decimal(&mut t, u64::MAX);
    assert_eq!(t, "18446744073709551615");
}

#[test]
fn digest_check_on_given_digest() {
    assert_eq!(hex_lower_string(&[0x00, 0x0f, 0xa0, 0xff]), "000fa0ff");
    let rec = PackRecord { id: "p".into(), url: "/p".into(), hash: "00ff".into(), size: 7 };
    assert!(check_pack_digest("p", &rec, 7, &[0x00, 0xff]).is_ok());
    assert_eq!(check_pack_digest("p", &rec, 7, &[0x00, 0xfe]).err().unwrap(), "pack p hash mismatch");
    assert_eq!(
        check_pack_digest("p", &rec, 6, &[0x00, 0xff]).err().unwrap(),
        "pack p size mismatch: got 6 expected 7"
    );
}
