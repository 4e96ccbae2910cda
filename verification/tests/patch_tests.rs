use tone_mark::json::JsonValue;
use tone_mark::patch::{block_address, block_payload, parse_hex_byte, patch_messages};
use tone_mark::state::PatchInfo;
use tone_mark::sysex::build_sysex;

fn model(v: serde_json::Value) -> JsonValue {
    match v {
        serde_json::Value::Null => JsonValue::Null,
        serde_json::Value::Bool(b) => JsonValue::Bool(b),
        serde_json::Value::Number(n) => match n.as_u64() {
            Some(u) => JsonValue::UInt(u),
            None => JsonValue::OtherNumber,
        },
        serde_json::Value::String(s) => JsonValue::Str(s),
        serde_json::Value::Array(a) => JsonValue::Array(a.into_iter().map(model).collect()),
        serde_json::Value::Object(m) => JsonValue::Object(m.into_iter().map(|(k, x)| (k, model(x))).collect()),
    }
}

fn doc(text: &str) -> JsonValue {
    model(serde_json::from_str(text).unwrap())
}

#[test]
fn hex_bytes_as_from_str_radix_reads_them() {
    for s in ["00", "7f", "7F", "ff", "+1", "0", "000000ff", "a", "-1", "", "+", "-", "100", "0g", " 1", "1 "] {
        assert_eq!(parse_hex_byte(s), u8::from_str_radix(s, 16).ok(), "on {:?}", s);
    }
}

#[test]
fn hex_byte_errors() {
    assert_eq!(parse_hex_byte(""), None);
    assert_eq!(parse_hex_byte("+"), None);
    assert_eq!(parse_hex_byte("-1"), None);
    assert_eq!(parse_hex_byte("1FF"), None);
    assert_eq!(parse_hex_byte("é"), None);
    assert_eq!(parse_hex_byte("Ab"), Some(0xAB));
}

#[test]
fn block_addresses() {
    assert_eq!(block_address("UserPatch%Patch_0"), Some([0x60, 0x00, 0x00, 0x10]));
    assert_eq!(block_address("UserPatch%Eq(2)"), Some([0x60, 0x00, 0x01, 0x00]));
    assert_eq!(block_address("UserPatch%Fx(1)"), Some([0x60, 0x00, 0x01, 0x20]));
    assert_eq!(block_address("UserPatch%Fx(2)"), Some([0x60, 0x00, 0x03, 0x00]));
    assert_eq!(block_address("UserPatch%Delay(1)"), Some([0x60, 0x00, 0x05, 0x00]));
    assert_eq!(block_address("UserPatch%Delay(2)"), Some([0x60, 0x00, 0x05, 0x20]));
    assert_eq!(block_address("UserPatch%Patch_1"), Some([0x60, 0x00, 0x05, 0x40]));
    assert_eq!(block_address("UserPatch%Patch_2"), Some([0x60, 0x00, 0x06, 0x00]));
    assert_eq!(block_address("UserPatch%Status"), Some([0x60, 0x00, 0x06, 0x10]));
    assert_eq!(block_address("UserPatch%Eq(1)"), None);
}

#[test]
fn block_payload_skips_bad_entries() {
    let v = doc(r#"["01", "zz", 5, "7f", "100", "0A"]"#);
    assert_eq!(block_payload(&v), vec![0x01, 0x7F, 0x0A]);
    let v = doc(r#""01""#);
    assert!(block_payload(&v).is_empty());
}

const PATCH: &str = r#"{
  "data": [[{
    "patchName": "  Crunchy  ",
    "memo": " live set ",
    "paramSet": {
      "UserPatch%Status": ["01", "02"],
      "UserPatch%Patch_0": ["10"],
      "Unknown%Block": ["33"],
      "UserPatch%Fx(1)": ["xx"]
    }
  }]]
}"#;

#[test]
fn patch_messages_in_key_order_for_target() {
    let d = doc(PATCH);
    let msgs = patch_messages(&d, 0x11);
    assert_eq!(
        msgs,
        vec![build_sysex([0x11, 0x00, 0x00, 0x10], &[0x10]), build_sysex([0x11, 0x00, 0x06, 0x10], &[0x01, 0x02])]
    );
}

#[test]
fn patch_messages_without_param_set() {
    let d = doc(r#"{"data": [[{"patchName": "x"}]]}"#);
    assert!(patch_messages(&d, 0x60).is_empty());
    let d = doc(r#"{"data": []}"#);
    assert!(patch_messages(&d, 0x60).is_empty());
}

#[test]
fn patch_info_from_document() {
    let d = doc(PATCH);
    let info = PatchInfo::from_json(&d, Some("file"));
    assert_eq!(info.name, "Crunchy");
    assert_eq!(info.memo, "live set");
    assert_eq!(info.block_count, 4);
}

#[test]
fn patch_info_falls_back_to_stem() {
    let d = doc(r#"{"data": [[{"patchName": "   "}]]}"#);
    let info = PatchInfo::from_json(&d, Some("my_patch"));
    assert_eq!(info.name, "my_patch");
    assert_eq!(info.memo, "");
    assert_eq!(info.block_count, 0);
    let info = PatchInfo::from_json(&d, None);
    assert_eq!(info.name, "?");
}

#[test]
fn patch_messages_are_framed_for_the_target() {
    let d = doc(PATCH);
    let msgs = patch_messages(&d, 0x12);
    assert!(msgs.len() <= 4);
    for m in &msgs {
        assert!(m.len() >= 15);
        assert_eq!(m[0], 0xF0);
        assert_eq!(*m.last().unwrap(), 0xF7);
        assert_eq!(m[8], 0x12);
        let sum: u32 = m[8..m.len() - 1].iter().map(|&b| b as u32).sum();
        assert_eq!(sum % 128, 0);
    }
}
