//! Tone Studio patch files (`.tsl`): which parameter blocks go to which
//! amplifier address, the hexadecimal bytes of each block, and what the
//! library shows of a file.
use vstd::prelude::*;
use crate::json::{JsonValue, array_items, object_fields};
use crate::text::{chars_of, str_eq, trim, trimmed};
use crate::sysex::{build_sysex, sysex_message, byte_sum, lemma_sysex_message_framed};
use crate::state::PatchInfo;

verus! {

/// Value of a hexadecimal digit.
pub open spec fn hex_digit_value(c: char) -> Option<nat> {
    if '0' <= c && c <= '9' {
        Some((c as u32 - '0' as u32) as nat)
    } else if 'a' <= c && c <= 'f' {
        Some((c as u32 - 'a' as u32 + 10) as nat)
    } else if 'A' <= c && c <= 'F' {
        Some((c as u32 - 'A' as u32 + 10) as nat)
    } else {
        None
    }
}

/// Value of a string of hexadecimal digits (`Some(0)` for no digits).
pub open spec fn hex_number(digits: Seq<char>) -> Option<nat>
    decreases digits.len(),
{
    if digits.len() == 0 {
        Some(0)
    } else {
        match (hex_number(digits.drop_last()), hex_digit_value(digits.last())) {
            (Some(v), Some(d)) => Some(v * 16 + d),
            _ => None,
        }
    }
}

/// The byte that `u8::from_str_radix(s, 16)` reads from `s`: an optional
/// leading `+` and at least one hexadecimal digit, with a value below 256.
pub open spec fn hex_byte(s: Seq<char>) -> Option<u8> {
    if s.len() == 0 {
        None
    } else if s.len() == 1 && (s[0] == '+' || s[0] == '-') {
        None
    } else {
        let digits = if s[0] == '+' {
            s.drop_first()
        } else {
            s
        };
        match hex_number(digits) {
            Some(v) => if v <= 255 {
                Some(v as u8)
            } else {
                None
            },
            None => None,
        }
    }
}

fn hex_digit(c: char) -> (r: Option<u32>)
    ensures
        match r {
            Some(d) => hex_digit_value(c) == Some(d as nat) && d < 16,
            None => hex_digit_value(c) is None,
        },
{
    if '0' <= c && c <= '9' {
        Some(c as u32 - '0' as u32)
    } else if 'a' <= c && c <= 'f' {
        Some(c as u32 - 'a' as u32 + 10)
    } else if 'A' <= c && c <= 'F' {
        Some(c as u32 - 'A' as u32 + 10)
    } else {
        None
    }
}

/// Reads a byte written in hexadecimal, as `u8::from_str_radix(s, 16)`
/// does: an optional leading `+`, then digits `0-9`, `a-f`, `A-F`.
pub fn parse_hex_byte(s: &str) -> (r: Option<u8>)
    ensures
        r == hex_byte(s@),
{
    let cs = chars_of(s);
    let n = cs.len();
    if n == 0 {
        return None;
    }
    if n == 1 && (cs[0] == '+' || cs[0] == '-') {
        return None;
    }
    let start: usize = if cs[0] == '+' { 1 } else { 0 };
    let ghost digits = if s@[0] == '+' { s@.drop_first() } else { s@ };
    assert(digits =~= s@.subrange(start as int, n as int));
    let mut acc: u32 = 0;
    let mut i: usize = start;
    assert(digits.take(0) =~= Seq::<char>::empty());
    while i < n
        invariant
            n == cs@.len(),
            cs@ == s@,
            start <= i <= n,
            digits == s@.subrange(start as int, n as int),
            digits == (if s@[0] == '+' { s@.drop_first() } else { s@ }),
            n > 0,
            !(n == 1 && (s@[0] == '+' || s@[0] == '-')),
            hex_number(digits.take(i - start)) matches Some(v) && acc as nat == if v < 256 { v } else { 256 },
        decreases n - i,
    {
        proof {
            assert(digits.take(i - start + 1).drop_last() =~= digits.take(i - start));
            assert(digits.take(i - start + 1).last() == cs@[i as int]);
        }
        match hex_digit(cs[i]) {
            Some(d) => {
                let ghost v = hex_number(digits.take(i - start))->0;
                let next: u32 = acc * 16 + d;
                proof {
                    if v >= 256 {
                        assert(v * 16 + d >= 256) by (nonlinear_arith)
                            requires v >= 256;
                    } else {
                        assert(next == v * 16 + d);
                    }
                }
                acc = if next < 256 { next } else { 256 };
            },
            None => {
                proof {
                    assert(hex_number(digits.take(i - start + 1)) is None);
                    lemma_hex_number_none_extends(digits, (i - start + 1) as int);
                    assert(digits.take(digits.len() as int) =~= digits);
                }
                return None;
            },
        }
        i = i + 1;
    }
    assert(digits.take(n - start) =~= digits);
    if acc < 256 {
        Some(acc as u8)
    } else {
        None
    }
}

proof fn lemma_hex_number_none_extends(digits: Seq<char>, k: int)
    requires
        0 <= k <= digits.len(),
        hex_number(digits.take(k)) is None,
    ensures
        hex_number(digits) is None,
    decreases digits.len() - k,
{
    if k < digits.len() {
        assert(digits.take(k + 1).drop_last() =~= digits.take(k));
        lemma_hex_number_none_extends(digits, k + 1);
    } else {
        assert(digits.take(k) =~= digits);
    }
}

/// The hexadecimal digit of `d < 16`, in upper case (`upper`) or lower
/// case.
pub open spec fn hex_char(d: nat, upper: bool) -> char {
    if d < 10 {
        (0x30 + d) as char
    } else if upper {
        (0x41 + d - 10) as char
    } else {
        (0x61 + d - 10) as char
    }
}

/// A byte written as two hexadecimal digits, in either case, reads back as
/// that byte.
pub proof fn lemma_hex_byte_two_digits(b: u8, upper: bool)
    ensures
        hex_byte(seq![hex_char(b as nat / 16, upper), hex_char(b as nat % 16, upper)]) == Some(b),
{
    let hi = b as nat / 16;
    let lo = b as nat % 16;
    let s = seq![hex_char(hi, upper), hex_char(lo, upper)];
    assert(hex_digit_value(hex_char(hi, upper)) == Some(hi));
    assert(hex_digit_value(hex_char(lo, upper)) == Some(lo));
    assert(s.drop_last() =~= seq![hex_char(hi, upper)]);
    assert(s.drop_last().drop_last() =~= Seq::<char>::empty());
    assert(hex_number(Seq::<char>::empty()) == Some(0nat));
    assert(s.drop_last().last() == hex_char(hi, upper));
    assert(hex_number(s.drop_last()) == Some(hi));
    assert(hex_number(s) == Some(hi * 16 + lo));
    assert(hi * 16 + lo == b as nat);
}

/// Amplifier address of each parameter block of a patch file, as stored
/// for the panel; the first byte is replaced by the target channel's.
pub open spec fn base_address(key: Seq<char>) -> Option<Seq<u8>> {
    if key == "UserPatch%Patch_0"@ {
        Some(seq![0x60u8, 0x00u8, 0x00u8, 0x10u8])
    } else if key == "UserPatch%Eq(2)"@ {
        Some(seq![0x60u8, 0x00u8, 0x01u8, 0x00u8])
    } else if key == "UserPatch%Fx(1)"@ {
        Some(seq![0x60u8, 0x00u8, 0x01u8, 0x20u8])
    } else if key == "UserPatch%Fx(2)"@ {
        Some(seq![0x60u8, 0x00u8, 0x03u8, 0x00u8])
    } else if key == "UserPatch%Delay(1)"@ {
        Some(seq![0x60u8, 0x00u8, 0x05u8, 0x00u8])
    } else if key == "UserPatch%Delay(2)"@ {
        Some(seq![0x60u8, 0x00u8, 0x05u8, 0x20u8])
    } else if key == "UserPatch%Patch_1"@ {
        Some(seq![0x60u8, 0x00u8, 0x05u8, 0x40u8])
    } else if key == "UserPatch%Patch_2"@ {
        Some(seq![0x60u8, 0x00u8, 0x06u8, 0x00u8])
    } else if key == "UserPatch%Status"@ {
        Some(seq![0x60u8, 0x00u8, 0x06u8, 0x10u8])
    } else {
        None
    }
}

/// Address of the parameter block `key` of a patch file, if it is one the
/// amplifier takes.
pub fn block_address(key: &str) -> (r: Option<[u8; 4]>)
    ensures
        match r {
            Some(a) => base_address(key@) == Some(a@),
            None => base_address(key@) is None,
        },
{
    let r: Option<[u8; 4]> = if str_eq(key, "UserPatch%Patch_0") {
        Some([0x60, 0x00, 0x00, 0x10])
    } else if str_eq(key, "UserPatch%Eq(2)") {
        Some([0x60, 0x00, 0x01, 0x00])
    } else if str_eq(key, "UserPatch%Fx(1)") {
        Some([0x60, 0x00, 0x01, 0x20])
    } else if str_eq(key, "UserPatch%Fx(2)") {
        Some([0x60, 0x00, 0x03, 0x00])
    } else if str_eq(key, "UserPatch%Delay(1)") {
        Some([0x60, 0x00, 0x05, 0x00])
    } else if str_eq(key, "UserPatch%Delay(2)") {
        Some([0x60, 0x00, 0x05, 0x20])
    } else if str_eq(key, "UserPatch%Patch_1") {
        Some([0x60, 0x00, 0x05, 0x40])
    } else if str_eq(key, "UserPatch%Patch_2") {
        Some([0x60, 0x00, 0x06, 0x00])
    } else if str_eq(key, "UserPatch%Status") {
        Some([0x60, 0x00, 0x06, 0x10])
    } else {
        None
    };
    proof {
        if let Some(a) = r {
            assert(a@ =~= base_address(key@)->0);
        }
    }
    r
}

/// The bytes of a block: the elements of its array that are strings
/// holding a hexadecimal byte, in order; the others are skipped.
pub open spec fn hex_payload(items: Seq<JsonValue>) -> Seq<u8>
    decreases items.len(),
{
    if items.len() == 0 {
        Seq::empty()
    } else {
        let front = hex_payload(items.drop_last());
        match items.last().str_of() {
            Some(s) => match hex_byte(s) {
                Some(b) => front.push(b),
                None => front,
            },
            None => front,
        }
    }
}

/// The parameter blocks of a patch document: the `paramSet` object of the
/// first patch of its `data`.
pub open spec fn param_set(doc: JsonValue) -> JsonValue {
    doc.at_key("data"@).at_index(0).at_index(0).at_key("paramSet"@)
}

/// The first patch of a patch document.
pub open spec fn patch_entry(doc: JsonValue) -> JsonValue {
    doc.at_key("data"@).at_index(0).at_index(0)
}

/// The data-set messages that write a patch's blocks to the channel whose
/// area starts at `msb`: one for each block whose key names an address and
/// whose payload is not empty, in the order of the blocks.
pub open spec fn patch_messages_of(fields: Seq<(String, JsonValue)>, msb: u8) -> Seq<Seq<u8>>
    decreases fields.len(),
{
    if fields.len() == 0 {
        Seq::empty()
    } else {
        let front = patch_messages_of(fields.drop_last(), msb);
        let (key, block) = fields.last();
        match base_address(key@) {
            Some(a) => {
                let payload = hex_payload(array_items(block));
                if payload.len() > 0 {
                    front.push(sysex_message(a.update(0, msb), payload))
                } else {
                    front
                }
            },
            None => front,
        }
    }
}

/// Every message that writes a patch is a framed data-set message with at
/// least one data byte, addressed to the channel whose area starts at
/// `msb`, whose checksum closes; there is at most one per block.
pub proof fn lemma_patch_messages_framed(fields: Seq<(String, JsonValue)>, msb: u8)
    ensures
        patch_messages_of(fields, msb).len() <= fields.len(),
        forall|i: int|
            0 <= i < patch_messages_of(fields, msb).len() ==> {
                let m = #[trigger] patch_messages_of(fields, msb)[i];
                &&& m.len() >= 15
                &&& m[0] == 0xF0u8
                &&& m[m.len() - 1] == 0xF7u8
                &&& m[8] == msb
                &&& byte_sum(m.subrange(8, m.len() - 1)) % 128 == 0
            },
    decreases fields.len(),
{
    if fields.len() > 0 {
        let d = fields.drop_last();
        lemma_patch_messages_framed(d, msb);
        let front = patch_messages_of(d, msb);
        let (key, block) = fields.last();
        if let Some(a) = base_address(key@) {
            let payload = hex_payload(array_items(block));
            if payload.len() > 0 {
                let addr = a.update(0, msb);
                assert(addr.len() == 4);
                lemma_sysex_message_framed(addr, payload);
                let m = sysex_message(addr, payload);
                assert(m.subrange(8, 12)[0] == m[8]);
                assert(front.push(m)[front.len() as int] == m);
            }
        }
    }
}

/// The bytes of one parameter block.
pub fn block_payload(block: &JsonValue) -> (p: Vec<u8>)
    ensures
        p@ == hex_payload(array_items(*block)),
{
    let mut out: Vec<u8> = Vec::new();
    match block {
        JsonValue::Array(items) => {
            let n = items.len();
            let mut i: usize = 0;
            while i < n
                invariant
                    n == items@.len(),
                    i <= n,
                    out@ == hex_payload(items@.take(i as int)),
                decreases n - i,
            {
                proof {
                    assert(items@.take(i + 1).drop_last() =~= items@.take(i as int));
                }
                match items[i].as_str() {
                    Some(s) => match parse_hex_byte(s) {
                        Some(b) => out.push(b),
                        None => {},
                    },
                    None => {},
                }
                i = i + 1;
            }
            assert(items@.take(n as int) =~= items@);
        },
        _ => {},
    }
    out
}

/// The views of a list of messages.
pub open spec fn messages_view(v: Seq<Vec<u8>>) -> Seq<Seq<u8>> {
    v.map_values(|m: Vec<u8>| m@)
}

/// The messages that write the parameter blocks of a patch document to the
/// channel whose area starts at `msb` (see `patch_messages_of`).
pub fn patch_messages(doc: &JsonValue, msb: u8) -> (msgs: Vec<Vec<u8>>)
    ensures
        messages_view(msgs@) == patch_messages_of(object_fields(param_set(*doc)), msb),
{
    let mut msgs: Vec<Vec<u8>> = Vec::new();
    let blocks = match doc.get_key("data") {
        Some(d) => match d.get_index(0) {
            Some(p) => match p.get_index(0) {
                Some(e) => e.get_key("paramSet"),
                None => None,
            },
            None => None,
        },
        None => None,
    };
    match blocks {
        Some(JsonValue::Object(fields)) => {
            let n = fields.len();
            let mut i: usize = 0;
            while i < n
                invariant
                    n == fields@.len(),
                    i <= n,
                    messages_view(msgs@) == patch_messages_of(fields@.take(i as int), msb),
                decreases n - i,
            {
                proof {
                    assert(fields@.take(i + 1).drop_last() =~= fields@.take(i as int));
                }
                let ghost before = msgs@;
                match block_address(fields[i].0.as_str()) {
                    Some(base) => {
                        let mut address = base;
                        address[0] = msb;
                        let payload = block_payload(&fields[i].1);
                        if payload.len() > 0 {
                            assert(address@ =~= base@.update(0, msb));
                            let m = build_sysex(address, payload.as_slice());
                            msgs.push(m);
                            assert(messages_view(msgs@) =~= messages_view(before).push(m@));
                        }
                    },
                    None => {},
                }
                i = i + 1;
            }
            assert(fields@.take(n as int) =~= fields@);
        },
        _ => {
            assert(messages_view(msgs@) =~= Seq::<Seq<u8>>::empty());
        },
    }
    msgs
}

/// The text of a string value, or nothing.
pub open spec fn str_or_empty(v: JsonValue) -> Seq<char> {
    match v.str_of() {
        Some(s) => s,
        None => Seq::empty(),
    }
}

/// The name the library shows for a patch: the patch's trimmed
/// `patchName`, or where that is empty the file's stem (`?` without one).
pub open spec fn display_name(doc: JsonValue, stem: Option<Seq<char>>) -> Seq<char> {
    let name = trimmed(str_or_empty(patch_entry(doc).at_key("patchName"@)));
    if name.len() == 0 {
        match stem {
            Some(s) => s,
            None => "?"@,
        }
    } else {
        name
    }
}

/// The patch's trimmed `memo`.
pub open spec fn memo_of(doc: JsonValue) -> Seq<char> {
    trimmed(str_or_empty(patch_entry(doc).at_key("memo"@)))
}

/// How many parameter blocks the patch has.
pub open spec fn block_count_of(doc: JsonValue) -> int {
    object_fields(param_set(doc)).len() as int
}

fn member_text<'a>(v: Option<&'a JsonValue>, key: &str) -> (r: &'a str)
    ensures
        r@ == str_or_empty(match v {
            Some(x) => x.at_key(key@),
            None => JsonValue::Null,
        }),
{
    let m = match v {
        Some(x) => x.get_key(key),
        None => None,
    };
    match m {
        Some(x) => match x.as_str() {
            Some(s) => s,
            None => {
                let e = "";
                proof {
                    reveal_strlit("");
                }
                e
            },
        },
        None => {
            let e = "";
            proof {
                reveal_strlit("");
            }
            e
        },
    }
}

impl PatchInfo {
    /// What the library shows of a patch document whose file has the stem
    /// `stem`: its display name, its memo and its number of blocks.
    pub fn from_json(doc: &JsonValue, stem: Option<&str>) -> (info: PatchInfo)
        ensures
            info.name@ == display_name(*doc, match stem {
                Some(s) => Some(s@),
                None => None,
            }),
            info.memo@ == memo_of(*doc),
            info.block_count == block_count_of(*doc),
    {
        let entry = match doc.get_key("data") {
            Some(d) => match d.get_index(0) {
                Some(p) => p.get_index(0),
                None => None,
            },
            None => None,
        };
        let name = trim(member_text(entry, "patchName"));
        let memo = trim(member_text(entry, "memo"));
        let blocks = match entry {
            Some(e) => e.get_key("paramSet"),
            None => None,
        };
        let block_count: usize = match blocks {
            Some(JsonValue::Object(fields)) => fields.len(),
            _ => 0,
        };
        let display: String = if name.unicode_len() == 0 {
            match stem {
                Some(s) => s.to_owned(),
                None => {
                    proof {
                        reveal_strlit("?");
                    }
                    "?".to_owned()
                },
            }
        } else {
            name.to_owned()
        };
        PatchInfo { name: display, memo: memo.to_owned(), block_count }
    }
}

} // verus!
