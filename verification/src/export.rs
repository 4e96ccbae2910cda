//! The document into which the editor's state is exported.
use vstd::prelude::*;
use crate::json::{JsonValue, object_fields, writable};
use crate::state::Snapshot;

verus! {

/// A scalar member of an exported document.
pub enum Leaf {
    Text(Seq<char>),
    Num(nat),
    Flag(bool),
}

/// The scalar that a value holds, if it is one.
pub open spec fn leaf_of(v: JsonValue) -> Option<Leaf> {
    match v {
        JsonValue::Str(s) => Some(Leaf::Text(s@)),
        JsonValue::UInt(u) => Some(Leaf::Num(u as nat)),
        JsonValue::Bool(b) => Some(Leaf::Flag(b)),
        _ => None,
    }
}

/// The members of an object with their scalars, in order.
pub open spec fn leaves(v: JsonValue) -> Seq<(Seq<char>, Option<Leaf>)> {
    object_fields(v).map_values(|e: (String, JsonValue)| (e.0@, leaf_of(e.1)))
}

/// The names of the members of an object, in order.
pub open spec fn keys_of(v: JsonValue) -> Seq<Seq<char>> {
    object_fields(v).map_values(|e: (String, JsonValue)| e.0@)
}

/// The name of the effect type `idx` in `names`, or nothing past its end.
pub open spec fn name_or_empty(names: Seq<String>, idx: usize) -> Seq<char> {
    if idx < names.len() {
        names[idx as int]@
    } else {
        Seq::empty()
    }
}

/// The names of the effect types, by the editor's type index.
pub struct TypeNames {
    pub amp: Vec<String>,
    pub booster: Vec<String>,
    pub mod_fx: Vec<String>,
    pub fx: Vec<String>,
    pub delay: Vec<String>,
    pub reverb: Vec<String>,
}

/// The exported members of each block, in order.
pub open spec fn block_leaves(b: Snapshot, n: TypeNames) -> Seq<Seq<(Seq<char>, Option<Leaf>)>> {
    seq![
        seq![
            ("type"@, Some(Leaf::Text(name_or_empty(n.amp@, b.amp.type_idx)))),
            ("gain"@, Some(Leaf::Num(b.amp.gain as nat))),
            ("bass"@, Some(Leaf::Num(b.amp.bass as nat))),
            ("mid"@, Some(Leaf::Num(b.amp.mid as nat))),
            ("treble"@, Some(Leaf::Num(b.amp.treble as nat))),
            ("presence"@, Some(Leaf::Num(b.amp.pres as nat))),
            ("volume"@, Some(Leaf::Num(b.amp.vol as nat))),
            ("bright"@, Some(Leaf::Flag(b.amp.bright))),
            ("sag"@, Some(Leaf::Num(b.amp.sag as nat))),
            ("resonance"@, Some(Leaf::Num(b.amp.res as nat))),
        ],
        seq![
            ("on"@, Some(Leaf::Flag(b.booster.on))),
            ("type"@, Some(Leaf::Text(name_or_empty(n.booster@, b.booster.type_idx)))),
            ("drive"@, Some(Leaf::Num(b.booster.p1 as nat))),
            ("bottom"@, Some(Leaf::Num(b.booster.p2 as nat))),
            ("tone"@, Some(Leaf::Num(b.booster.p3 as nat))),
            ("level"@, Some(Leaf::Num(b.booster.p4 as nat))),
        ],
        seq![
            ("on"@, Some(Leaf::Flag(b.mod_fx.on))),
            ("type"@, Some(Leaf::Text(name_or_empty(n.mod_fx@, b.mod_fx.type_idx)))),
        ],
        seq![
            ("on"@, Some(Leaf::Flag(b.fx.on))),
            ("type"@, Some(Leaf::Text(name_or_empty(n.fx@, b.fx.type_idx)))),
        ],
        seq![
            ("on"@, Some(Leaf::Flag(b.delay.on))),
            ("type"@, Some(Leaf::Text(name_or_empty(n.delay@, b.delay.type_idx)))),
            ("time"@, Some(Leaf::Num(b.delay.time as nat))),
            ("feedback"@, Some(Leaf::Num(b.delay.feedback as nat))),
            ("level"@, Some(Leaf::Num(b.delay.level as nat))),
        ],
        seq![
            ("on"@, Some(Leaf::Flag(b.reverb.on))),
            ("type"@, Some(Leaf::Text(name_or_empty(n.reverb@, b.reverb.type_idx)))),
            ("time"@, Some(Leaf::Num(b.reverb.time as nat))),
            ("preDelay"@, Some(Leaf::Num(b.reverb.pre as nat))),
            ("density"@, Some(Leaf::Num(b.reverb.density as nat))),
            ("level"@, Some(Leaf::Num(b.reverb.level as nat))),
        ],
        seq![
            ("on"@, Some(Leaf::Flag(b.ns.on))),
            ("threshold"@, Some(Leaf::Num(b.ns.threshold as nat))),
            ("release"@, Some(Leaf::Num(b.ns.release as nat))),
        ],
    ]
}

/// The names of the blocks of an exported document, after its marker.
pub open spec fn block_keys() -> Seq<Seq<char>> {
    seq!["amp"@, "booster"@, "mod"@, "fx"@, "delay"@, "reverb"@, "noiseSuppressor"@]
}

/// `j` is the exported document of the blocks `b`: the marker
/// `exportedFromToneMarkII: true`, then one object per block with its
/// members in order.
pub open spec fn describes_state(j: JsonValue, b: Snapshot, n: TypeNames) -> bool {
    &&& keys_of(j) == seq!["exportedFromToneMarkII"@] + block_keys()
    &&& object_fields(j)[0].1 == JsonValue::Bool(true)
    &&& forall|i: int| 0 <= i < 7 ==> leaves(#[trigger] object_fields(j)[i + 1].1) == block_leaves(b, n)[i]
}

fn text_value(s: &str) -> (j: JsonValue)
    ensures
        leaf_of(j) == Some(Leaf::Text(s@)),
        writable(j),
{
    JsonValue::Str(s.to_owned())
}

fn num_value(v: u8) -> (j: JsonValue)
    ensures
        leaf_of(j) == Some(Leaf::Num(v as nat)),
        writable(j),
{
    JsonValue::UInt(v as u64)
}

fn flag_value(v: bool) -> (j: JsonValue)
    ensures
        leaf_of(j) == Some(Leaf::Flag(v)),
        writable(j),
{
    JsonValue::Bool(v)
}

fn kind_name(names: &Vec<String>, idx: usize) -> (s: &str)
    ensures
        s@ == name_or_empty(names@, idx),
{
    if idx < names.len() {
        names[idx].as_str()
    } else {
        proof {
            reveal_strlit("");
        }
        ""
    }
}

/// An object of scalar members whose leaves are `expected`.
fn leaf_object(fields: Vec<(String, JsonValue)>, Ghost(expected): Ghost<Seq<(Seq<char>, Option<Leaf>)>>) -> (j: JsonValue)
    requires
        fields@.map_values(|e: (String, JsonValue)| (e.0@, leaf_of(e.1))) == expected,
        forall|k: int| 0 <= k < fields@.len() ==> writable(#[trigger] fields@[k].1),
    ensures
        leaves(j) == expected,
        writable(j),
{
    JsonValue::Object(fields)
}

/// The exported document of the blocks `b` (see `describes_state`).
pub fn state_document(b: &Snapshot, n: &TypeNames) -> (j: JsonValue)
    ensures
        describes_state(j, *b, *n),
        writable(j),
{
    let ghost bl = block_leaves(*b, *n);
    let mut amp: Vec<(String, JsonValue)> = Vec::new();
    amp.push(("type".to_owned(), text_value(kind_name(&n.amp, b.amp.type_idx))));
    amp.push(("gain".to_owned(), num_value(b.amp.gain)));
    amp.push(("bass".to_owned(), num_value(b.amp.bass)));
    amp.push(("mid".to_owned(), num_value(b.amp.mid)));
    amp.push(("treble".to_owned(), num_value(b.amp.treble)));
    amp.push(("presence".to_owned(), num_value(b.amp.pres)));
    amp.push(("volume".to_owned(), num_value(b.amp.vol)));
    amp.push(("bright".to_owned(), flag_value(b.amp.bright)));
    amp.push(("sag".to_owned(), num_value(b.amp.sag)));
    amp.push(("resonance".to_owned(), num_value(b.amp.res)));
    assert(amp@.map_values(|e: (String, JsonValue)| (e.0@, leaf_of(e.1))) =~= bl[0]);
    let amp_j = leaf_object(amp, Ghost(bl[0]));

    let mut bst: Vec<(String, JsonValue)> = Vec::new();
    bst.push(("on".to_owned(), flag_value(b.booster.on)));
    bst.push(("type".to_owned(), text_value(kind_name(&n.booster, b.booster.type_idx))));
    bst.push(("drive".to_owned(), num_value(b.booster.p1)));
    bst.push(("bottom".to_owned(), num_value(b.booster.p2)));
    bst.push(("tone".to_owned(), num_value(b.booster.p3)));
    bst.push(("level".to_owned(), num_value(b.booster.p4)));
    assert(bst@.map_values(|e: (String, JsonValue)| (e.0@, leaf_of(e.1))) =~= bl[1]);
    let bst_j = leaf_object(bst, Ghost(bl[1]));

    let mut md: Vec<(String, JsonValue)> = Vec::new();
    md.push(("on".to_owned(), flag_value(b.mod_fx.on)));
    md.push(("type".to_owned(), text_value(kind_name(&n.mod_fx, b.mod_fx.type_idx))));
    assert(md@.map_values(|e: (String, JsonValue)| (e.0@, leaf_of(e.1))) =~= bl[2]);
    let md_j = leaf_object(md, Ghost(bl[2]));

    let mut fx: Vec<(String, JsonValue)> = Vec::new();
    fx.push(("on".to_owned(), flag_value(b.fx.on)));
    fx.push(("type".to_owned(), text_value(kind_name(&n.fx, b.fx.type_idx))));
    assert(fx@.map_values(|e: (String, JsonValue)| (e.0@, leaf_of(e.1))) =~= bl[3]);
    let fx_j = leaf_object(fx, Ghost(bl[3]));

    let mut dl: Vec<(String, JsonValue)> = Vec::new();
    dl.push(("on".to_owned(), flag_value(b.delay.on)));
    dl.push(("type".to_owned(), text_value(kind_name(&n.delay, b.delay.type_idx))));
    dl.push(("time".to_owned(), num_value(b.delay.time)));
    dl.push(("feedback".to_owned(), num_value(b.delay.feedback)));
    dl.push(("level".to_owned(), num_value(b.delay.level)));
    assert(dl@.map_values(|e: (String, JsonValue)| (e.0@, leaf_of(e.1))) =~= bl[4]);
    let dl_j = leaf_object(dl, Ghost(bl[4]));

    let mut rv: Vec<(String, JsonValue)> = Vec::new();
    rv.push(("on".to_owned(), flag_value(b.reverb.on)));
    rv.push(("type".to_owned(), text_value(kind_name(&n.reverb, b.reverb.type_idx))));
    rv.push(("time".to_owned(), num_value(b.reverb.time)));
    rv.push(("preDelay".to_owned(), num_value(b.reverb.pre)));
    rv.push(("density".to_owned(), num_value(b.reverb.density)));
    rv.push(("level".to_owned(), num_value(b.reverb.level)));
    assert(rv@.map_values(|e: (String, JsonValue)| (e.0@, leaf_of(e.1))) =~= bl[5]);
    let rv_j = leaf_object(rv, Ghost(bl[5]));

    let mut ns: Vec<(String, JsonValue)> = Vec::new();
    ns.push(("on".to_owned(), flag_value(b.ns.on)));
    ns.push(("threshold".to_owned(), num_value(b.ns.threshold)));
    ns.push(("release".to_owned(), num_value(b.ns.release)));
    assert(ns@.map_values(|e: (String, JsonValue)| (e.0@, leaf_of(e.1))) =~= bl[6]);
    let ns_j = leaf_object(ns, Ghost(bl[6]));

    let mut top: Vec<(String, JsonValue)> = Vec::new();
    top.push(("exportedFromToneMarkII".to_owned(), JsonValue::Bool(true)));
    top.push(("amp".to_owned(), amp_j));
    top.push(("booster".to_owned(), bst_j));
    top.push(("mod".to_owned(), md_j));
    top.push(("fx".to_owned(), fx_j));
    top.push(("delay".to_owned(), dl_j));
    top.push(("reverb".to_owned(), rv_j));
    top.push(("noiseSuppressor".to_owned(), ns_j));
    let j = JsonValue::Object(top);
    assert(keys_of(j) =~= seq!["exportedFromToneMarkII"@] + block_keys());
    assert(writable(j)) by {
        assert(writable(top@[0].1));
        assert(top@[1].1 == amp_j && top@[2].1 == bst_j && top@[3].1 == md_j && top@[4].1 == fx_j);
        assert(top@[5].1 == dl_j && top@[6].1 == rv_j && top@[7].1 == ns_j);
        assert forall|k: int| 0 <= k < top@.len() implies #[trigger] writable(top@[k].1) by {}
    }
    j
}

} // verus!
