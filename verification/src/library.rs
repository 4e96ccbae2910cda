//! The patch library's metadata: the user's tags and which patches carry
//! which tags.
use vstd::prelude::*;
use crate::text::{text_less, str_eq, eq_ignore_ascii_case, eq_ignore_ascii_case_spec, trim, trimmed};
use crate::theme::Rgb;
use crate::assignments::{Assignments, names_view, entry_map, keys_distinct, keys_ordered, lemma_entry_map_at, lemma_entry_map_domain};
use crate::json::{JsonValue, array_items, object_fields, writable, members_ordered, nested_within, lookup, parse_json, json_parse_result, to_pretty_string, json_pretty_text};

verus! {

/// Colour of a tag chip.
#[derive(PartialEq, Eq, Structural, Clone, Copy, Debug, Hash)]
pub enum TagColor {
    Crimson,
    Amber,
    Gold,
    Lime,
    Teal,
    Sky,
    Indigo,
    Violet,
    Pink,
    Slate,
}

impl TagColor {
    /// Every tag colour, in the order of the colour picker.
    pub const ALL: [TagColor; 10] = [
        TagColor::Crimson,
        TagColor::Amber,
        TagColor::Gold,
        TagColor::Lime,
        TagColor::Teal,
        TagColor::Sky,
        TagColor::Indigo,
        TagColor::Violet,
        TagColor::Pink,
        TagColor::Slate,
    ];

    /// Name under which the colour is stored.
    pub open spec fn spec_id(self) -> Seq<char> {
        match self {
            TagColor::Crimson => "crimson"@,
            TagColor::Amber => "amber"@,
            TagColor::Gold => "gold"@,
            TagColor::Lime => "lime"@,
            TagColor::Teal => "teal"@,
            TagColor::Sky => "sky"@,
            TagColor::Indigo => "indigo"@,
            TagColor::Violet => "violet"@,
            TagColor::Pink => "pink"@,
            TagColor::Slate => "slate"@,
        }
    }

    /// Colour stored under a name; an unknown name gives `Slate`.
    pub open spec fn spec_from_id(s: Seq<char>) -> TagColor {
        if s == "crimson"@ {
            TagColor::Crimson
        } else if s == "amber"@ {
            TagColor::Amber
        } else if s == "gold"@ {
            TagColor::Gold
        } else if s == "lime"@ {
            TagColor::Lime
        } else if s == "teal"@ {
            TagColor::Teal
        } else if s == "sky"@ {
            TagColor::Sky
        } else if s == "indigo"@ {
            TagColor::Indigo
        } else if s == "violet"@ {
            TagColor::Violet
        } else if s == "pink"@ {
            TagColor::Pink
        } else {
            TagColor::Slate
        }
    }

    /// Text and background colour of a chip of this colour.
    pub open spec fn spec_pair(self) -> (Rgb, Rgb) {
        match self {
            TagColor::Crimson => (Rgb { r: 255, g: 120, b: 120 }, Rgb { r: 58, g: 26, b: 30 }),
            TagColor::Amber => (Rgb { r: 255, g: 175, b: 85 }, Rgb { r: 58, g: 38, b: 20 }),
            TagColor::Gold => (Rgb { r: 240, g: 215, b: 95 }, Rgb { r: 52, g: 46, b: 20 }),
            TagColor::Lime => (Rgb { r: 150, g: 220, b: 120 }, Rgb { r: 28, g: 50, b: 28 }),
            TagColor::Teal => (Rgb { r: 100, g: 220, b: 200 }, Rgb { r: 22, g: 50, b: 48 }),
            TagColor::Sky => (Rgb { r: 120, g: 190, b: 245 }, Rgb { r: 22, g: 42, b: 62 }),
            TagColor::Indigo => (Rgb { r: 155, g: 150, b: 245 }, Rgb { r: 30, g: 28, b: 60 }),
            TagColor::Violet => (Rgb { r: 205, g: 135, b: 235 }, Rgb { r: 45, g: 26, b: 56 }),
            TagColor::Pink => (Rgb { r: 245, g: 140, b: 200 }, Rgb { r: 58, g: 26, b: 46 }),
            TagColor::Slate => (Rgb { r: 170, g: 180, b: 200 }, Rgb { r: 40, g: 44, b: 52 }),
        }
    }

    /// Name under which the colour is stored.
    pub fn id(self) -> (s: &'static str)
        ensures
            s@ == self.spec_id(),
    {
        match self {
            TagColor::Crimson => "crimson",
            TagColor::Amber => "amber",
            TagColor::Gold => "gold",
            TagColor::Lime => "lime",
            TagColor::Teal => "teal",
            TagColor::Sky => "sky",
            TagColor::Indigo => "indigo",
            TagColor::Violet => "violet",
            TagColor::Pink => "pink",
            TagColor::Slate => "slate",
        }
    }

    /// Colour stored under `s`; any other text gives `Slate`.
    pub fn from_id(s: &str) -> (c: TagColor)
        ensures
            c == TagColor::spec_from_id(s@),
    {
        if str_eq(s, "crimson") {
            TagColor::Crimson
        } else if str_eq(s, "amber") {
            TagColor::Amber
        } else if str_eq(s, "gold") {
            TagColor::Gold
        } else if str_eq(s, "lime") {
            TagColor::Lime
        } else if str_eq(s, "teal") {
            TagColor::Teal
        } else if str_eq(s, "sky") {
            TagColor::Sky
        } else if str_eq(s, "indigo") {
            TagColor::Indigo
        } else if str_eq(s, "violet") {
            TagColor::Violet
        } else if str_eq(s, "pink") {
            TagColor::Pink
        } else {
            TagColor::Slate
        }
    }

    /// Text and background colour of a chip of this colour.
    pub fn pair(self) -> (c: (Rgb, Rgb))
        ensures
            c == self.spec_pair(),
    {
        match self {
            TagColor::Crimson => (Rgb { r: 255, g: 120, b: 120 }, Rgb { r: 58, g: 26, b: 30 }),
            TagColor::Amber => (Rgb { r: 255, g: 175, b: 85 }, Rgb { r: 58, g: 38, b: 20 }),
            TagColor::Gold => (Rgb { r: 240, g: 215, b: 95 }, Rgb { r: 52, g: 46, b: 20 }),
            TagColor::Lime => (Rgb { r: 150, g: 220, b: 120 }, Rgb { r: 28, g: 50, b: 28 }),
            TagColor::Teal => (Rgb { r: 100, g: 220, b: 200 }, Rgb { r: 22, g: 50, b: 48 }),
            TagColor::Sky => (Rgb { r: 120, g: 190, b: 245 }, Rgb { r: 22, g: 42, b: 62 }),
            TagColor::Indigo => (Rgb { r: 155, g: 150, b: 245 }, Rgb { r: 30, g: 28, b: 60 }),
            TagColor::Violet => (Rgb { r: 205, g: 135, b: 235 }, Rgb { r: 45, g: 26, b: 56 }),
            TagColor::Pink => (Rgb { r: 245, g: 140, b: 200 }, Rgb { r: 58, g: 26, b: 46 }),
            TagColor::Slate => (Rgb { r: 170, g: 180, b: 200 }, Rgb { r: 40, g: 44, b: 52 }),
        }
    }
}

/// Storing a tag colour under its name and reading the name back gives the
/// same colour.
pub proof fn lemma_tag_color_id_roundtrip(c: TagColor)
    ensures
        TagColor::spec_from_id(c.spec_id()) == c,
{
    reveal_strlit("crimson");
    reveal_strlit("amber");
    reveal_strlit("gold");
    reveal_strlit("lime");
    reveal_strlit("teal");
    reveal_strlit("sky");
    reveal_strlit("indigo");
    reveal_strlit("violet");
    reveal_strlit("pink");
    reveal_strlit("slate");
    assert("crimson"@.len() == 7 && "amber"@.len() == 5 && "gold"@.len() == 4);
    assert("lime"@.len() == 4 && "teal"@.len() == 4 && "sky"@.len() == 3);
    assert("indigo"@.len() == 6 && "violet"@.len() == 6 && "pink"@.len() == 4);
    assert("slate"@.len() == 5);
    assert("gold"@[0] == 'g' && "lime"@[0] == 'l' && "teal"@[0] == 't' && "pink"@[0] == 'p');
    assert("indigo"@[0] == 'i' && "violet"@[0] == 'v' && "amber"@[0] == 'a' && "slate"@[0] == 's');
}

/// Whether a file extension is that of a patch file: `tsl`, ASCII case
/// aside.
pub fn is_patch_extension(ext: &str) -> (r: bool)
    ensures
        r == eq_ignore_ascii_case_spec(ext@, "tsl"@),
{
    eq_ignore_ascii_case(ext, "tsl")
}

/// What a tag is: its name and its colour.
pub type TagView = (Seq<char>, TagColor);

/// A user-defined tag.
pub struct Tag {
    pub name: String,
    pub color: TagColor,
}

impl Tag {
    pub open spec fn view(&self) -> TagView {
        (self.name@, self.color)
    }
}

/// The tags of a list of `Tag`s.
pub open spec fn tags_view(v: Seq<Tag>) -> Seq<TagView> {
    v.map_values(|t: Tag| t@)
}

/// The tags of a library that has no metadata file yet.
pub open spec fn default_tags() -> Seq<TagView> {
    seq![
        ("Clean"@, TagColor::Lime),
        ("Crunch"@, TagColor::Amber),
        ("Lead"@, TagColor::Crimson),
        ("Metal"@, TagColor::Violet),
        ("Ambient"@, TagColor::Sky),
        ("Funk"@, TagColor::Gold),
        ("Acoustic"@, TagColor::Teal),
        ("Live"@, TagColor::Pink),
    ]
}

/// The first tag named `name`.
pub open spec fn tag_named(tags: Seq<TagView>, name: Seq<char>) -> Option<TagView>
    decreases tags.len(),
{
    if tags.len() == 0 {
        None
    } else if tags[0].0 == name {
        Some(tags[0])
    } else {
        tag_named(tags.drop_first(), name)
    }
}

/// Looking a tag up by name finds the first tag with exactly that name, or
/// nothing when no tag has it.
pub proof fn lemma_tag_named_is_first(tags: Seq<TagView>, name: Seq<char>)
    ensures
        match tag_named(tags, name) {
            Some(t) => exists|i: int|
                0 <= i < tags.len() && tags[i] == t && t.0 == name && forall|k: int|
                    0 <= k < i ==> (#[trigger] tags[k]).0 != name,
            None => forall|i: int| 0 <= i < tags.len() ==> (#[trigger] tags[i]).0 != name,
        },
    decreases tags.len(),
{
    if tags.len() > 0 {
        let d = tags.drop_first();
        lemma_tag_named_is_first(d, name);
        if tags[0].0 != name {
            match tag_named(d, name) {
                Some(t) => {
                    let i = choose|i: int|
                        0 <= i < d.len() && d[i] == t && t.0 == name && forall|k: int|
                            0 <= k < i ==> (#[trigger] d[k]).0 != name;
                    assert(tags[i + 1] == t);
                    assert forall|k: int| 0 <= k < i + 1 implies (#[trigger] tags[k]).0 != name by {
                        if k > 0 {
                            assert(tags[k] == d[k - 1]);
                        }
                    }
                },
                None => {
                    assert forall|i: int| 0 <= i < tags.len() implies (#[trigger] tags[i]).0 != name by {
                        if i > 0 {
                            assert(tags[i] == d[i - 1]);
                        }
                    }
                },
            }
        }
    }
}

/// The tags that a list of names refers to, in the order of the names;
/// names of no tag are left out.
pub open spec fn resolve_names(tags: Seq<TagView>, names: Seq<Seq<char>>) -> Seq<TagView>
    decreases names.len(),
{
    if names.len() == 0 {
        Seq::empty()
    } else {
        let front = resolve_names(tags, names.drop_last());
        match tag_named(tags, names.last()) {
            Some(t) => front.push(t),
            None => front,
        }
    }
}

/// The assignment map after `tag` is toggled on the patch `rel`: removed
/// (its first occurrence) where the patch carries it, the patch's entry
/// going away with its last tag; else appended to the patch's names.
pub open spec fn toggled(
    m: Map<Seq<char>, Seq<Seq<char>>>,
    rel: Seq<char>,
    tag: Seq<char>,
) -> Map<Seq<char>, Seq<Seq<char>>> {
    let list = if m.contains_key(rel) {
        m[rel]
    } else {
        Seq::empty()
    };
    match list.index_of_first(tag) {
        Some(p) => {
            let rest = list.remove(p);
            if rest.len() == 0 {
                m.remove(rel)
            } else {
                m.insert(rel, rest)
            }
        },
        None => m.insert(rel, list.push(tag)),
    }
}

/// The library's tags and their assignment to patches.
pub struct LibraryMeta {
    pub tags: Vec<Tag>,
    pub assignments: Assignments,
}

fn make_tag(name: &str, color: TagColor) -> (t: Tag)
    ensures
        t@ == (name@, color),
{
    Tag { name: name.to_owned(), color }
}

impl Default for LibraryMeta {
    /// Metadata of a library without a metadata file: the eight starter
    /// tags and no assignments.
    fn default() -> (m: LibraryMeta)
        ensures
            m.wf(),
            m.tag_list() == default_tags(),
            m.assignments@ == Map::<Seq<char>, Seq<Seq<char>>>::empty(),
    {
        let mut tags: Vec<Tag> = Vec::new();
        tags.push(make_tag("Clean", TagColor::Lime));
        tags.push(make_tag("Crunch", TagColor::Amber));
        tags.push(make_tag("Lead", TagColor::Crimson));
        tags.push(make_tag("Metal", TagColor::Violet));
        tags.push(make_tag("Ambient", TagColor::Sky));
        tags.push(make_tag("Funk", TagColor::Gold));
        tags.push(make_tag("Acoustic", TagColor::Teal));
        tags.push(make_tag("Live", TagColor::Pink));
        let m = LibraryMeta { tags, assignments: Assignments::new() };
        assert(m.tag_list() =~= default_tags());
        m
    }

}

impl LibraryMeta {
    /// The tags, in order.
    pub open spec fn tag_list(&self) -> Seq<TagView> {
        tags_view(self.tags@)
    }

    /// Well formed: at most one assignment entry per patch.
    pub open spec fn wf(&self) -> bool {
        self.assignments.wf()
    }

    /// The first tag named `name`.
    pub fn tag_by_name(&self, name: &str) -> (r: Option<&Tag>)
        ensures
            match r {
                Some(t) => tag_named(self.tag_list(), name@) == Some(t@),
                None => tag_named(self.tag_list(), name@) is None,
            },
    {
        let n = self.tags.len();
        let mut i: usize = 0;
        assert(self.tag_list().skip(0) =~= self.tag_list());
        while i < n
            invariant
                n == self.tags@.len(),
                i <= n,
                tag_named(self.tag_list(), name@) == tag_named(self.tag_list().skip(i as int), name@),
            decreases n - i,
        {
            proof {
                assert(self.tag_list().skip(i as int)[0] == self.tags@[i as int]@);
                assert(self.tag_list().skip(i as int).drop_first() =~= self.tag_list().skip(i + 1));
            }
            if str_eq(self.tags[i].name.as_str(), name) {
                return Some(&self.tags[i]);
            }
            i = i + 1;
        }
        assert(self.tag_list().skip(n as int) =~= Seq::<TagView>::empty());
        None
    }

    /// The tags assigned to the patch `rel`, in assignment order; names that
    /// match no tag are skipped.
    pub fn tags_for(&self, rel: &str) -> (r: Vec<&Tag>)
        requires
            self.wf(),
        ensures
            r@.map_values(|t: &Tag| t@) == resolve_names(
                self.tag_list(),
                if self.assignments@.contains_key(rel@) {
                    self.assignments@[rel@]
                } else {
                    Seq::empty()
                },
            ),
    {
        let mut out: Vec<&Tag> = Vec::new();
        match self.assignments.get(rel) {
            Some(names) => {
                let n = names.len();
                let mut i: usize = 0;
                while i < n
                    invariant
                        n == names@.len(),
                        i <= n,
                        out@.map_values(|t: &Tag| t@) == resolve_names(
                            self.tag_list(),
                            names_view(names@).take(i as int),
                        ),
                    decreases n - i,
                {
                    proof {
                        assert(names_view(names@).take(i + 1).drop_last() =~= names_view(
                            names@,
                        ).take(i as int));
                    }
                    let ghost before = out@;
                    match self.tag_by_name(names[i].as_str()) {
                        Some(t) => {
                            out.push(t);
                            assert(out@.map_values(|t: &Tag| t@) =~= before.map_values(
                                |t: &Tag| t@,
                            ).push(t@));
                        },
                        None => {},
                    }
                    i = i + 1;
                }
                assert(names_view(names@).take(n as int) =~= names_view(names@));
            },
            None => {
                assert(out@.map_values(|t: &Tag| t@) =~= Seq::<TagView>::empty());
            },
        }
        out
    }

    /// Adds `tag_name` to the tags of the patch `rel` when the patch does not
    /// carry it, else removes it (and the patch's entry with its last tag).
    pub fn toggle_assignment(&mut self, rel: &str, tag_name: &str)
        requires
            old(self).wf(),
        ensures
            final(self).wf(),
            final(self).tags@ == old(self).tags@,
            final(self).assignments@ == toggled(old(self).assignments@, rel@, tag_name@),
            old(self).assignments.no_empty_lists() ==> final(self).assignments.no_empty_lists(),
    {
        proof {
            if self.assignments.no_empty_lists() {
                lemma_toggle_keeps_entries_nonempty(self.assignments@, rel@, tag_name@);
            }
        }
        let ghost m = self.assignments@;
        let mut list: Vec<String> = match self.assignments.take(rel) {
            Some(v) => v,
            None => Vec::new(),
        };
        let ghost l0 = names_view(list@);
        assert(l0 =~= (if m.contains_key(rel@) { m[rel@] } else { Seq::empty() }));
        let n = list.len();
        let mut i: usize = 0;
        while i < n
            invariant
                n == list@.len(),
                i <= n,
                l0 == names_view(list@),
                forall|j: int| 0 <= j < i ==> #[trigger] l0[j] != tag_name@,
            ensures
                i <= n,
                i < n ==> l0[i as int] == tag_name@,
                forall|j: int| 0 <= j < i ==> #[trigger] l0[j] != tag_name@,
            decreases n - i,
        {
            if str_eq(list[i].as_str(), tag_name) {
                break;
            }
            i = i + 1;
        }
        proof {
            l0.index_of_first_ensures(tag_name@);
        }
        if i < n {
            proof {
                assert(l0[i as int] == tag_name@);
                assert(l0.contains(tag_name@));
                let p = l0.index_of_first(tag_name@)->0;
                assert(p == i) by {
                    if p < i {
                        assert(l0[p] != tag_name@);
                    }
                    if p > i {
                        assert(l0[i as int] != tag_name@);
                    }
                }
            }
            list.remove(i);
            assert(names_view(list@) =~= l0.remove(i as int));
            if list.len() > 0 {
                self.assignments.insert(rel.to_owned(), list);
            }
        } else {
            proof {
                assert(!l0.contains(tag_name@)) by {
                    if l0.contains(tag_name@) {
                        let k = choose|k: int| 0 <= k < l0.len() && l0[k] == tag_name@;
                        assert(l0[k] != tag_name@);
                    }
                }
            }
            list.push(tag_name.to_owned());
            assert(names_view(list@) =~= l0.push(tag_name@));
            self.assignments.insert(rel.to_owned(), list);
        }
        assert(self.assignments@ =~= toggled(m, rel@, tag_name@));
    }
}

/// Whether the patch `rel` carries the tag named `tag`.
pub open spec fn carries(m: Map<Seq<char>, Seq<Seq<char>>>, rel: Seq<char>, tag: Seq<char>) -> bool {
    m.contains_key(rel) && m[rel].contains(tag)
}

/// Toggling a tag leaves every other patch's tags as they were, and where
/// the patch's names hold no duplicate and no entry is empty, it flips
/// whether the patch carries the tag and keeps both properties.
pub proof fn lemma_toggle_flips(m: Map<Seq<char>, Seq<Seq<char>>>, rel: Seq<char>, tag: Seq<char>)
    ensures
        forall|r: Seq<char>|
            r != rel ==> (#[trigger] toggled(m, rel, tag).contains_key(r) == m.contains_key(r)
                && (m.contains_key(r) ==> toggled(m, rel, tag)[r] == m[r])),
        (!m.contains_key(rel) || m[rel].no_duplicates()) ==> (carries(toggled(m, rel, tag), rel, tag)
            <==> !carries(m, rel, tag)),
        (!m.contains_key(rel) || m[rel].no_duplicates()) ==> (toggled(m, rel, tag).contains_key(rel)
            ==> toggled(m, rel, tag)[rel].no_duplicates()),
        (!m.contains_key(rel) || m[rel].len() > 0) ==> (toggled(m, rel, tag).contains_key(rel)
            ==> toggled(m, rel, tag)[rel].len() > 0),
{
    let list = if m.contains_key(rel) {
        m[rel]
    } else {
        Seq::empty()
    };
    list.index_of_first_ensures(tag);
    match list.index_of_first(tag) {
        Some(p) => {
            let rest = list.remove(p);
            if list.no_duplicates() {
                assert(!rest.contains(tag)) by {
                    if rest.contains(tag) {
                        let k = choose|k: int| 0 <= k < rest.len() && rest[k] == tag;
                        if k < p {
                            assert(list[k] == tag);
                        } else {
                            assert(list[k + 1] == tag);
                        }
                    }
                }
                assert(rest.no_duplicates()) by {
                    assert forall|a: int, b: int| 0 <= a < rest.len() && 0 <= b < rest.len() && a != b
                        implies rest[a] != rest[b] by {
                        let a2 = if a < p { a } else { a + 1 };
                        let b2 = if b < p { b } else { b + 1 };
                        assert(rest[a] == list[a2] && rest[b] == list[b2]);
                    }
                }
            }
        },
        None => {
            assert(list.push(tag).contains(tag)) by {
                assert(list.push(tag)[list.len() as int] == tag);
            }
            if list.no_duplicates() {
                assert(list.push(tag).no_duplicates()) by {
                    assert forall|a: int, b: int|
                        0 <= a < list.push(tag).len() && 0 <= b < list.push(tag).len() && a != b
                        implies list.push(tag)[a] != list.push(tag)[b] by {
                        if a == list.len() {
                            assert(list[b] != tag);
                        } else if b == list.len() {
                            assert(list[a] != tag);
                        }
                    }
                }
            }
        },
    }
}

/// Toggling a tag that a patch does not carry, twice, gives back the
/// assignments as they were, provided the patch has no empty entry.
pub proof fn lemma_toggle_twice_restores(
    m: Map<Seq<char>, Seq<Seq<char>>>,
    rel: Seq<char>,
    tag: Seq<char>,
)
    requires
        !carries(m, rel, tag),
        m.contains_key(rel) ==> m[rel].len() > 0,
    ensures
        toggled(toggled(m, rel, tag), rel, tag) == m,
{
    let list = if m.contains_key(rel) {
        m[rel]
    } else {
        Seq::empty()
    };
    list.index_of_first_ensures(tag);
    let m1 = toggled(m, rel, tag);
    let l1 = list.push(tag);
    assert(m1 == m.insert(rel, l1));
    assert(m1[rel] == l1);
    l1.index_of_first_ensures(tag);
    assert(l1[list.len() as int] == tag);
    assert(l1.contains(tag));
    let p = l1.index_of_first(tag)->0;
    assert(p == list.len()) by {
        if p < list.len() {
            assert(list[p] == tag);
            assert(list.contains(tag));
        }
    }
    assert(l1.remove(p) =~= list);
    if m.contains_key(rel) {
        assert(toggled(m1, rel, tag) =~= m);
    } else {
        assert(toggled(m1, rel, tag) =~= m);
    }
}

/// The tags that a list of JSON tag records gives: one for each record
/// with a string `name` and a string `color`, in order.
pub open spec fn tags_from_json(items: Seq<JsonValue>) -> Seq<TagView>
    decreases items.len(),
{
    if items.len() == 0 {
        Seq::empty()
    } else {
        let front = tags_from_json(items.drop_last());
        let item = items.last();
        match (item.at_key("name"@).str_of(), item.at_key("color"@).str_of()) {
            (Some(n), Some(c)) => front.push((n, TagColor::spec_from_id(c))),
            _ => front,
        }
    }
}

/// The string elements of a list of values, in order.
pub open spec fn string_items(items: Seq<JsonValue>) -> Seq<Seq<char>>
    decreases items.len(),
{
    if items.len() == 0 {
        Seq::empty()
    } else {
        let front = string_items(items.drop_last());
        match items.last().str_of() {
            Some(s) => front.push(s),
            None => front,
        }
    }
}

/// The assignments that the members of a JSON object give: for each member
/// whose value is an array with at least one string, its strings; a later
/// member replaces an earlier one of the same name.
pub open spec fn assignments_from_json(fields: Seq<(String, JsonValue)>) -> Map<Seq<char>, Seq<Seq<char>>>
    decreases fields.len(),
{
    if fields.len() == 0 {
        Map::empty()
    } else {
        let front = assignments_from_json(fields.drop_last());
        let (k, val) = fields.last();
        match val {
            JsonValue::Array(items) => {
                let names = string_items(items@);
                if names.len() > 0 {
                    front.insert(k@, names)
                } else {
                    front
                }
            },
            _ => front,
        }
    }
}

/// The tags read from a metadata document: those of its `tags` array, or
/// the starter tags where that gives none.
pub open spec fn loaded_tags(v: JsonValue) -> Seq<TagView> {
    let t = tags_from_json(array_items(v.at_key("tags"@)));
    if t.len() == 0 {
        default_tags()
    } else {
        t
    }
}

/// The assignments read from a metadata document's `assignments` object.
pub open spec fn loaded_assignments(v: JsonValue) -> Map<Seq<char>, Seq<Seq<char>>> {
    assignments_from_json(object_fields(v.at_key("assignments"@)))
}

/// `j` is the record `{"color": .., "name": ..}` of the tag `t`.
pub open spec fn describes_tag(j: JsonValue, t: TagView) -> bool {
    &&& j matches JsonValue::Object(f)
    &&& f@.len() == 2
    &&& f@[0].0@ == "color"@
    &&& f@[0].1 == JsonValue::Str(f@[0].1->Str_0) && f@[0].1.str_of() == Some(t.1.spec_id())
    &&& f@[1].0@ == "name"@
    &&& f@[1].1 == JsonValue::Str(f@[1].1->Str_0) && f@[1].1.str_of() == Some(t.0)
}

/// `j` is the array of the strings `names`.
pub open spec fn describes_names(j: JsonValue, names: Seq<Seq<char>>) -> bool {
    &&& j matches JsonValue::Array(a)
    &&& a@.len() == names.len()
    &&& forall|i: int| 0 <= i < names.len() ==> (#[trigger] a@[i]).str_of() == Some(names[i])
}

/// `j` is the metadata document of `tags` and of the assignment entries
/// `entries`: `{"assignments": {..}, "tags": [..]}`, in that order.
pub open spec fn describes_meta(j: JsonValue, tags: Seq<TagView>, entries: Seq<(String, Vec<String>)>) -> bool {
    &&& j matches JsonValue::Object(f)
    &&& f@.len() == 2
    &&& f@[1].0@ == "tags"@
    &&& f@[1].1 matches JsonValue::Array(ta)
    &&& ta@.len() == tags.len()
    &&& forall|i: int| 0 <= i < tags.len() ==> describes_tag(#[trigger] ta@[i], tags[i])
    &&& f@[0].0@ == "assignments"@
    &&& f@[0].1 matches JsonValue::Object(af)
    &&& af@.len() == entries.len()
    &&& forall|i: int| 0 <= i < entries.len() ==> (#[trigger] af@[i]).0@ == entries[i].0@
        && describes_names(af@[i].1, names_view(entries[i].1@))
}

/// The text of a string member, `None` where the member is missing or is
/// not a string.
fn str_member<'a>(v: &'a JsonValue, key: &str) -> (r: Option<&'a str>)
    ensures
        match r {
            Some(s) => v.at_key(key@).str_of() == Some(s@),
            None => v.at_key(key@).str_of() is None,
        },
{
    match v.get_key(key) {
        Some(m) => m.as_str(),
        None => None,
    }
}

/// The string elements of `items`, in order.
fn strings_of(items: &Vec<JsonValue>) -> (names: Vec<String>)
    ensures
        names_view(names@) == string_items(items@),
{
    let mut names: Vec<String> = Vec::new();
    let n = items.len();
    let mut i: usize = 0;
    while i < n
        invariant
            n == items@.len(),
            i <= n,
            names_view(names@) == string_items(items@.take(i as int)),
        decreases n - i,
    {
        proof {
            assert(items@.take(i + 1).drop_last() =~= items@.take(i as int));
        }
        let ghost before = names@;
        match items[i].as_str() {
            Some(s) => {
                names.push(s.to_owned());
                assert(names_view(names@) =~= names_view(before).push(s@));
            },
            None => {},
        }
        i = i + 1;
    }
    assert(items@.take(n as int) =~= items@);
    names
}

fn str_value(s: &str) -> (j: JsonValue)
    ensures
        j == JsonValue::Str(j->Str_0),
        j.str_of() == Some(s@),
        writable(j),
{
    JsonValue::Str(s.to_owned())
}

impl LibraryMeta {
    /// The metadata that a parsed metadata document gives: the tags with a
    /// name and a colour (the starter tags where there is none) and, for
    /// each patch, its non-empty list of tag names.
    pub fn from_json(v: &JsonValue) -> (m: LibraryMeta)
        ensures
            m.wf(),
            m.tag_list() == loaded_tags(*v),
            m.assignments@ == loaded_assignments(*v),
            m.assignments.no_empty_lists(),
    {
        proof {
            lemma_loaded_assignments_nonempty(object_fields(v.at_key("assignments"@)));
        }
        let mut tags: Vec<Tag> = Vec::new();
        let ghost items_seq = array_items(v.at_key("tags"@));
        match v.get_key("tags") {
            Some(JsonValue::Array(items)) => {
                let n = items.len();
                let mut i: usize = 0;
                while i < n
                    invariant
                        n == items@.len(),
                        items@ == items_seq,
                        i <= n,
                        tags_view(tags@) == tags_from_json(items@.take(i as int)),
                    decreases n - i,
                {
                    proof {
                        assert(items@.take(i + 1).drop_last() =~= items@.take(i as int));
                    }
                    let ghost before = tags@;
                    let item = &items[i];
                    match (str_member(item, "name"), str_member(item, "color")) {
                        (Some(name), Some(color)) => {
                            tags.push(Tag { name: name.to_owned(), color: TagColor::from_id(color) });
                            assert(tags_view(tags@) =~= tags_view(before).push(
                                (name@, TagColor::spec_from_id(color@)),
                            ));
                        },
                        _ => {},
                    }
                    i = i + 1;
                }
                assert(items@.take(n as int) =~= items@);
            },
            _ => {
                assert(tags_view(tags@) =~= Seq::<TagView>::empty());
            },
        }
        if tags.len() == 0 {
            tags = LibraryMeta::default().tags;
        }
        let mut assignments = Assignments::new();
        let ghost fields_seq = object_fields(v.at_key("assignments"@));
        match v.get_key("assignments") {
            Some(JsonValue::Object(fields)) => {
                let n = fields.len();
                let mut i: usize = 0;
                while i < n
                    invariant
                        n == fields@.len(),
                        fields@ == fields_seq,
                        i <= n,
                        assignments.wf(),
                        assignments@ == assignments_from_json(fields@.take(i as int)),
                    decreases n - i,
                {
                    proof {
                        assert(fields@.take(i + 1).drop_last() =~= fields@.take(i as int));
                    }
                    let entry = &fields[i];
                    match &entry.1 {
                        JsonValue::Array(arr) => {
                            let names = strings_of(arr);
                            if names.len() > 0 {
                                assignments.insert(entry.0.clone(), names);
                            }
                        },
                        _ => {},
                    }
                    i = i + 1;
                }
                assert(fields@.take(n as int) =~= fields@);
            },
            _ => {},
        }
        LibraryMeta { tags, assignments }
    }

    /// The metadata document of this library: `{"assignments": {patch: [tag
    /// names], ..}, "tags": [{"color", "name"}, ..]}`, members in key order.
    pub fn to_json(&self) -> (j: JsonValue)
        ensures
            describes_meta(j, self.tag_list(), self.assignments.entries@),
            writable(j),
            self.wf() ==> members_ordered(j),
            nested_within(j, 100),
    {
        proof {
            reveal_strlit("tags");
            reveal_strlit("assignments");
            reveal_strlit("name");
            reveal_strlit("color");
        }
        assert("assignments"@[0] == 'a' && "tags"@[0] == 't' && "assignments"@.len() == 11 && "tags"@.len() == 4);
        assert("color"@[0] == 'c' && "name"@[0] == 'n' && "color"@.len() == 5 && "name"@.len() == 4);
        let mut tag_items: Vec<JsonValue> = Vec::new();
        let n = self.tags.len();
        let mut i: usize = 0;
        while i < n
            invariant
                n == self.tags@.len(),
                i <= n,
                tag_items@.len() == i,
                forall|k: int| 0 <= k < i ==> describes_tag(#[trigger] tag_items@[k], self.tag_list()[k]),
                forall|k: int| 0 <= k < i ==> writable(#[trigger] tag_items@[k]),
                forall|k: int| 0 <= k < i ==> members_ordered(#[trigger] tag_items@[k]),
                forall|k: int| 0 <= k < i ==> nested_within(#[trigger] tag_items@[k], 98),
                "color"@[0] == 'c' && "name"@[0] == 'n' && "color"@.len() == 5 && "name"@.len() == 4,
            decreases n - i,
        {
            let t = &self.tags[i];
            let mut fields: Vec<(String, JsonValue)> = Vec::new();
            fields.push(("color".to_owned(), str_value(t.color.id())));
            fields.push(("name".to_owned(), str_value(t.name.as_str())));
            let item = JsonValue::Object(fields);
            assert(writable(item)) by {
                assert forall|k: int| 0 <= k < fields@.len() implies #[trigger] writable(fields@[k].1) by {
                }
            }
            assert(members_ordered(item) && nested_within(item, 98)) by {
                reveal_with_fuel(members_ordered, 2);
                reveal_with_fuel(nested_within, 2);
                assert(text_less(fields@[0].0@, fields@[1].0@));
                assert forall|a: int, b: int| 0 <= a < b < fields@.len() implies text_less(
                    #[trigger] fields@[a].0@,
                    #[trigger] fields@[b].0@,
                ) by {
                    assert(a == 0 && b == 1);
                }
                assert forall|k: int| 0 <= k < fields@.len() implies #[trigger] members_ordered(fields@[k].1) by {
                }
                assert forall|k: int| 0 <= k < fields@.len() implies #[trigger] nested_within(fields@[k].1, 98 - 1) by {
                }
            }
            tag_items.push(item);
            i = i + 1;
        }
        let mut assign_fields: Vec<(String, JsonValue)> = Vec::new();
        let entries = &self.assignments.entries;
        let m = entries.len();
        let mut j: usize = 0;
        while j < m
            invariant
                m == entries@.len(),
                j <= m,
                assign_fields@.len() == j,
                forall|k: int| 0 <= k < j ==> (#[trigger] assign_fields@[k]).0@ == entries@[k].0@
                    && describes_names(assign_fields@[k].1, names_view(entries@[k].1@)),
                forall|k: int| 0 <= k < j ==> writable(#[trigger] assign_fields@[k].1),
                forall|k: int| 0 <= k < j ==> members_ordered(#[trigger] assign_fields@[k].1),
                forall|k: int| 0 <= k < j ==> nested_within(#[trigger] assign_fields@[k].1, 98),
            decreases m - j,
        {
            let names = &entries[j].1;
            let mut arr: Vec<JsonValue> = Vec::new();
            let c = names.len();
            let mut q: usize = 0;
            while q < c
                invariant
                    c == names@.len(),
                    q <= c,
                    arr@.len() == q,
                    forall|k: int| 0 <= k < q ==> (#[trigger] arr@[k]).str_of() == Some(names@[k]@),
                    forall|k: int| 0 <= k < q ==> writable(#[trigger] arr@[k]),
                    forall|k: int| 0 <= k < q ==> members_ordered(#[trigger] arr@[k]),
                    forall|k: int| 0 <= k < q ==> nested_within(#[trigger] arr@[k], 97),
                decreases c - q,
            {
                arr.push(str_value(names[q].as_str()));
                q = q + 1;
            }
            let value = JsonValue::Array(arr);
            assert(describes_names(value, names_view(names@)));
            assert(members_ordered(value) && nested_within(value, 98)) by {
                assert forall|k: int| 0 <= k < arr@.len() implies #[trigger] nested_within(arr@[k], 98 - 1) by {
                }
            }
            assign_fields.push((entries[j].0.clone(), value));
            j = j + 1;
        }
        let mut top: Vec<(String, JsonValue)> = Vec::new();
        top.push(("assignments".to_owned(), JsonValue::Object(assign_fields)));
        top.push(("tags".to_owned(), JsonValue::Array(tag_items)));
        let doc = JsonValue::Object(top);
        assert(writable(doc)) by {
            assert(writable(top@[0].1));
            assert(writable(top@[1].1));
            assert forall|k: int| 0 <= k < top@.len() implies #[trigger] writable(top@[k].1) by {}
        }
        assert(nested_within(top@[0].1, 99) && nested_within(top@[1].1, 99)) by {
            assert forall|k: int| 0 <= k < assign_fields@.len() implies #[trigger] nested_within(
                assign_fields@[k].1,
                99 - 1,
            ) by {
                assert(nested_within(assign_fields@[k].1, 98));
            }
            assert forall|k: int| 0 <= k < tag_items@.len() implies #[trigger] nested_within(
                tag_items@[k],
                99 - 1,
            ) by {
                assert(nested_within(tag_items@[k], 98));
            }
        }
        assert(nested_within(doc, 100)) by {
            assert forall|k: int| 0 <= k < top@.len() implies #[trigger] nested_within(top@[k].1, 100 - 1) by {
                assert(k == 0 || k == 1);
            }
        }
        proof {
            if self.wf() {
                assert(members_ordered(top@[1].1));
                assert forall|a: int, b: int| 0 <= a < b < assign_fields@.len() implies text_less(
                    #[trigger] assign_fields@[a].0@,
                    #[trigger] assign_fields@[b].0@,
                ) by {
                    assert(assign_fields@[a].0@ == entries@[a].0@);
                    assert(assign_fields@[b].0@ == entries@[b].0@);
                }
                assert(members_ordered(top@[0].1));
                assert(text_less(top@[0].0@, top@[1].0@));
                assert forall|a: int, b: int| 0 <= a < b < top@.len() implies text_less(
                    #[trigger] top@[a].0@,
                    #[trigger] top@[b].0@,
                ) by {
                    assert(a == 0 && b == 1);
                }
                assert forall|k: int| 0 <= k < top@.len() implies #[trigger] members_ordered(top@[k].1) by {
                    assert(k == 0 || k == 1);
                }
                assert(members_ordered(doc));
            }
        }
        doc
    }

    /// The metadata that a metadata file's text gives: as `from_json` on the
    /// parsed document, or the default metadata where the text does not
    /// parse.
    pub fn parse(text: &str) -> (m: LibraryMeta)
        ensures
            m.wf(),
            m.assignments.no_empty_lists(),
            match json_parse_result(text@) {
                Some(v) => m.tag_list() == loaded_tags(v) && m.assignments@ == loaded_assignments(v),
                None => m.tag_list() == default_tags() && m.assignments@ == Map::<
                    Seq<char>,
                    Seq<Seq<char>>,
                >::empty(),
            },
    {
        match parse_json(text) {
            Some(v) => LibraryMeta::from_json(&v),
            None => LibraryMeta::default(),
        }
    }

    /// The text of the metadata file: the metadata document, pretty-printed.
    /// Reading it back (as `parse` does) gives this library's tags and
    /// assignments, where the metadata is well formed, has at least one tag
    /// (a file without tags reads as the starter tags) and no patch entry
    /// without tag names (such an entry is not read back).
    pub fn to_json_string(&self) -> (s: String)
        ensures
            exists|j: JsonValue| describes_meta(j, self.tag_list(), self.assignments.entries@)
                && s@ == json_pretty_text(j),
            self.wf() && self.assignments.no_empty_lists() && self.tag_list().len() > 0
                ==> (json_parse_result(s@) matches Some(v) && loaded_tags(v) == self.tag_list()
                && loaded_assignments(v) == self.assignments@),
    {
        let j = self.to_json();
        proof {
            if self.wf() && self.assignments.no_empty_lists() && self.tag_list().len() > 0 {
                lemma_meta_document_roundtrip(self, j);
            }
        }
        to_pretty_string(&j)
    }
}

proof fn lemma_tag_record_reads_back(j: JsonValue, t: TagView)
    requires
        describes_tag(j, t),
    ensures
        j.at_key("name"@).str_of() == Some(t.0),
        j.at_key("color"@).str_of() == Some(t.1.spec_id()),
{
    reveal_strlit("name");
    reveal_strlit("color");
    assert("name"@.len() == 4 && "color"@.len() == 5);
    let f = j->Object_0@;
    assert(f.drop_first()[0] == f[1]);
    assert(f[0].0@ != "name"@);
    assert(lookup(f, "name"@) == lookup(f.drop_first(), "name"@));
    assert(lookup(f.drop_first(), "name"@) == Some(f[1].1));
}

proof fn lemma_tags_read_back(items: Seq<JsonValue>, tags: Seq<TagView>)
    requires
        items.len() == tags.len(),
        forall|i: int| 0 <= i < tags.len() ==> describes_tag(#[trigger] items[i], tags[i]),
    ensures
        tags_from_json(items) == tags,
    decreases items.len(),
{
    if items.len() > 0 {
        let k = items.len() - 1;
        lemma_tags_read_back(items.drop_last(), tags.drop_last());
        assert(describes_tag(items[k], tags[k]));
        lemma_tag_record_reads_back(items[k], tags[k]);
        lemma_tag_color_id_roundtrip(tags[k].1);
        assert(tags.drop_last().push(tags[k]) =~= tags);
    }
}

proof fn lemma_names_read_back(items: Seq<JsonValue>, names: Seq<Seq<char>>)
    requires
        items.len() == names.len(),
        forall|i: int| 0 <= i < names.len() ==> (#[trigger] items[i]).str_of() == Some(names[i]),
    ensures
        string_items(items) == names,
    decreases items.len(),
{
    if items.len() > 0 {
        let k = items.len() - 1;
        lemma_names_read_back(items.drop_last(), names.drop_last());
        assert(items[k].str_of() == Some(names[k]));
        assert(names.drop_last().push(names[k]) =~= names);
    }
}

proof fn lemma_assignments_read_back(fields: Seq<(String, JsonValue)>, entries: Seq<(String, Vec<String>)>)
    requires
        fields.len() == entries.len(),
        forall|i: int| 0 <= i < entries.len() ==> (#[trigger] fields[i]).0@ == entries[i].0@
            && describes_names(fields[i].1, names_view(entries[i].1@)),
        forall|i: int| 0 <= i < entries.len() ==> (#[trigger] entries[i]).1@.len() > 0,
    ensures
        assignments_from_json(fields) == entry_map(entries),
    decreases fields.len(),
{
    if fields.len() > 0 {
        let k = fields.len() - 1;
        lemma_assignments_read_back(fields.drop_last(), entries.drop_last());
        assert(fields[k].0@ == entries[k].0@);
        assert(entries[k].1@.len() > 0);
        let items = fields[k].1->Array_0@;
        lemma_names_read_back(items, names_view(entries[k].1@));
    }
}

/// Reading back the metadata document of a library gives its tags and its
/// assignments, provided it has at least one tag (a document without tags
/// reads as the starter tags) and no patch entry without tag names (such
/// an entry is not read back).
pub proof fn lemma_meta_document_roundtrip(m: &LibraryMeta, j: JsonValue)
    requires
        m.wf(),
        m.assignments.no_empty_lists(),
        m.tag_list().len() > 0,
        describes_meta(j, m.tag_list(), m.assignments.entries@),
    ensures
        loaded_tags(j) == m.tag_list(),
        loaded_assignments(j) == m.assignments@,
{
    reveal_strlit("tags");
    reveal_strlit("assignments");
    assert("tags"@.len() == 4 && "assignments"@.len() == 11);
    let f = j->Object_0@;
    assert(j.at_key("assignments"@) == f[0].1);
    assert(f.drop_first()[0] == f[1]);
    assert(f[0].0@ != "tags"@);
    assert(lookup(f, "tags"@) == lookup(f.drop_first(), "tags"@));
    assert(lookup(f.drop_first(), "tags"@) == Some(f[1].1));
    assert(j.at_key("tags"@) == f[1].1);
    let entries = m.assignments.entries@;
    lemma_tags_read_back(f[1].1->Array_0@, m.tag_list());
    assert forall|i: int| 0 <= i < entries.len() implies (#[trigger] entries[i]).1@.len() > 0 by {
        lemma_entry_map_at(entries, i);
        assert(m.assignments@.contains_key(entries[i].0@));
    }
    lemma_assignments_read_back(f[0].1->Object_0@, entries);
}

/// `names` without the name `name`.
pub open spec fn without_name(names: Seq<Seq<char>>, name: Seq<char>) -> Seq<Seq<char>>
    decreases names.len(),
{
    if names.len() == 0 {
        Seq::empty()
    } else {
        let front = without_name(names.drop_last(), name);
        if names.last() == name {
            front
        } else {
            front.push(names.last())
        }
    }
}

/// The tags without those named `name`.
pub open spec fn tags_without(tags: Seq<TagView>, name: Seq<char>) -> Seq<TagView>
    decreases tags.len(),
{
    if tags.len() == 0 {
        Seq::empty()
    } else {
        let front = tags_without(tags.drop_last(), name);
        if tags.last().0 == name {
            front
        } else {
            front.push(tags.last())
        }
    }
}

/// The tags, in order, whose name is not `name` (by `Seq::filter`).
pub open spec fn other_tags(tags: Seq<TagView>, name: Seq<char>) -> Seq<TagView> {
    tags.filter(|t: TagView| t.0 != name)
}

/// Deleting a tag keeps every other tag as it was, name and colour, in
/// order: the tags left are exactly the old tags whose name differs.
pub proof fn lemma_deleting_keeps_other_tags(tags: Seq<TagView>, name: Seq<char>)
    ensures
        tags_without(tags, name) == other_tags(tags, name),
    decreases tags.len(),
{
    reveal(Seq::filter);
    if tags.len() > 0 {
        lemma_deleting_keeps_other_tags(tags.drop_last(), name);
    }
}

/// The assignments once the tag `name` is gone: each patch keeps its other
/// names, and a patch left with none loses its entry.
pub open spec fn assignments_without(
    m: Map<Seq<char>, Seq<Seq<char>>>,
    name: Seq<char>,
) -> Map<Seq<char>, Seq<Seq<char>>> {
    Map::new(
        |k: Seq<char>| m.contains_key(k) && without_name(m[k], name).len() > 0,
        |k: Seq<char>| without_name(m[k], name),
    )
}

/// Whether a tag named `name` may be added: its trimmed name is not empty
/// and no tag has that name, ASCII case aside.
pub open spec fn can_add(tags: Seq<TagView>, name: Seq<char>) -> bool {
    &&& trimmed(name).len() > 0
    &&& forall|i: int| 0 <= i < tags.len() ==> !eq_ignore_ascii_case_spec(#[trigger] tags[i].0, trimmed(name))
}

fn strings_without(names: &Vec<String>, name: &str) -> (r: Vec<String>)
    ensures
        names_view(r@) == without_name(names_view(names@), name@),
{
    let mut out: Vec<String> = Vec::new();
    let n = names.len();
    let mut i: usize = 0;
    while i < n
        invariant
            n == names@.len(),
            i <= n,
            names_view(out@) == without_name(names_view(names@).take(i as int), name@),
        decreases n - i,
    {
        proof {
            assert(names_view(names@).take(i + 1).drop_last() =~= names_view(names@).take(i as int));
        }
        let ghost before = out@;
        if !str_eq(names[i].as_str(), name) {
            out.push(names[i].clone());
            assert(names_view(out@) =~= names_view(before).push(names@[i as int]@));
        }
        i = i + 1;
    }
    assert(names_view(names@).take(n as int) =~= names_view(names@));
    out
}

impl LibraryMeta {
    /// Deletes the tag named `name`: the tag list loses it, every patch
    /// loses the name, and patches left without names lose their entry.
    pub fn remove_tag(&mut self, name: &str)
        requires
            old(self).wf(),
        ensures
            final(self).wf(),
            final(self).tag_list() == tags_without(old(self).tag_list(), name@),
            final(self).tag_list() == other_tags(old(self).tag_list(), name@),
            final(self).assignments@ == assignments_without(old(self).assignments@, name@),
            final(self).assignments.no_empty_lists(),
    {
        proof {
            lemma_removed_tag_gone(self.tag_list(), self.assignments@, name@);
            lemma_deleting_keeps_other_tags(self.tag_list(), name@);
        }
        let mut kept: Vec<Tag> = Vec::new();
        let n = self.tags.len();
        let mut i: usize = 0;
        while i < n
            invariant
                n == self.tags@.len(),
                i <= n,
                tags_view(kept@) == tags_without(self.tag_list().take(i as int), name@),
            decreases n - i,
        {
            proof {
                assert(self.tag_list().take(i + 1).drop_last() =~= self.tag_list().take(i as int));
            }
            let ghost before = kept@;
            if !str_eq(self.tags[i].name.as_str(), name) {
                kept.push(make_tag(self.tags[i].name.as_str(), self.tags[i].color));
                assert(tags_view(kept@) =~= tags_view(before).push(self.tag_list()[i as int]));
            }
            i = i + 1;
        }
        assert(self.tag_list().take(n as int) =~= self.tag_list());
        let ghost m = self.assignments@;
        let mut out = Assignments::new();
        let entries = &self.assignments.entries;
        let c = entries.len();
        let mut j: usize = 0;
        while j < c
            invariant
                c == entries@.len(),
                j <= c,
                keys_distinct(entries@),
                out.wf(),
                out@ == assignments_without(entry_map(entries@.take(j as int)), name@),
            decreases c - j,
        {
            let ghost pre = entries@.take(j as int);
            let ghost k = entries@[j as int].0@;
            proof {
                assert(entries@.take(j + 1).drop_last() =~= pre);
                assert(entries@.take(j + 1).last() == entries@[j as int]);
            }
            let rest = strings_without(&entries[j].1, name);
            if rest.len() > 0 {
                out.insert(entries[j].0.clone(), rest);
            }
            proof {
                let full = entry_map(entries@.take(j + 1));
                assert(full == entry_map(pre).insert(k, names_view(entries@[j as int].1@)));
                lemma_entry_map_domain(pre, k);
                assert(!entry_map(pre).contains_key(k));
                assert(out@ =~= assignments_without(full, name@));
            }
            j = j + 1;
        }
        assert(entries@.take(c as int) =~= entries@);
        self.tags = kept;
        self.assignments = out;
    }

    /// Whether a tag named `name` may be added (see `can_add`).
    pub fn can_add_tag(&self, name: &str) -> (r: bool)
        ensures
            r == can_add(self.tag_list(), name@),
    {
        let t = trim(name);
        if t.unicode_len() == 0 {
            return false;
        }
        let n = self.tags.len();
        let mut i: usize = 0;
        while i < n
            invariant
                n == self.tags@.len(),
                i <= n,
                t@ == trimmed(name@),
                forall|k: int| 0 <= k < i ==> !eq_ignore_ascii_case_spec(#[trigger] self.tag_list()[k].0, t@),
            decreases n - i,
        {
            if eq_ignore_ascii_case(self.tags[i].name.as_str(), t) {
                assert(eq_ignore_ascii_case_spec(self.tag_list()[i as int].0, t@));
                return false;
            }
            i = i + 1;
        }
        true
    }

    /// Adds a tag with the trimmed `name` and `color` at the end of the
    /// list, where `can_add_tag` allows it; says whether it did.
    pub fn add_tag(&mut self, name: &str, color: TagColor) -> (added: bool)
        requires
            old(self).wf(),
        ensures
            final(self).wf(),
            added == can_add(old(self).tag_list(), name@),
            final(self).tag_list() == if added {
                old(self).tag_list().push((trimmed(name@), color))
            } else {
                old(self).tag_list()
            },
            final(self).assignments@ == old(self).assignments@,
    {
        if !self.can_add_tag(name) {
            return false;
        }
        let t = trim(name);
        let ghost before = self.tags@;
        self.tags.push(make_tag(t, color));
        assert(tags_view(self.tags@) =~= tags_view(before).push((trimmed(name@), color)));
        true
    }
}

/// Toggling keeps every entry non-empty.
pub proof fn lemma_toggle_keeps_entries_nonempty(
    m: Map<Seq<char>, Seq<Seq<char>>>,
    rel: Seq<char>,
    tag: Seq<char>,
)
    requires
        forall|k: Seq<char>| #[trigger] m.contains_key(k) ==> m[k].len() > 0,
    ensures
        forall|k: Seq<char>| #[trigger] toggled(m, rel, tag).contains_key(k) ==> toggled(m, rel, tag)[k].len() > 0,
{
    lemma_toggle_flips(m, rel, tag);
    assert forall|k: Seq<char>| #[trigger] toggled(m, rel, tag).contains_key(k) implies toggled(m, rel, tag)[k].len() > 0 by {
        if k != rel {
            assert(m.contains_key(k));
        }
    }
}

/// Every patch that a metadata document gives an entry carries at least
/// one tag name.
pub proof fn lemma_loaded_assignments_nonempty(fields: Seq<(String, JsonValue)>)
    ensures
        forall|k: Seq<char>| #[trigger] assignments_from_json(fields).contains_key(k)
            ==> assignments_from_json(fields)[k].len() > 0,
    decreases fields.len(),
{
    if fields.len() > 0 {
        let d = fields.drop_last();
        lemma_loaded_assignments_nonempty(d);
        let front = assignments_from_json(d);
        assert forall|k: Seq<char>| #[trigger] assignments_from_json(fields).contains_key(k)
            implies assignments_from_json(fields)[k].len() > 0 by {
            if k != fields.last().0@ {
                assert(front.contains_key(k));
            }
        }
    }
}

pub(crate) proof fn lemma_without_name_drops(names: Seq<Seq<char>>, name: Seq<char>)
    ensures
        !without_name(names, name).contains(name),
        forall|x: Seq<char>| x != name && names.contains(x) ==> #[trigger] without_name(names, name).contains(x),
    decreases names.len(),
{
    if names.len() > 0 {
        let d = names.drop_last();
        lemma_without_name_drops(d, name);
        let front = without_name(d, name);
        if names.last() != name {
            assert(front.push(names.last())[front.len() as int] == names.last());
            assert forall|x: Seq<char>| x != name && names.contains(x) implies #[trigger] without_name(names, name).contains(x) by {
                let k = choose|k: int| 0 <= k < names.len() && names[k] == x;
                if k < d.len() {
                    assert(d[k] == x);
                    assert(d.contains(x));
                    assert(front.contains(x));
                    let j = choose|j: int| 0 <= j < front.len() && front[j] == x;
                    assert(front.push(names.last())[j] == x);
                }
            }
            assert(!front.push(names.last()).contains(name)) by {
                if front.push(names.last()).contains(name) {
                    let j = choose|j: int| 0 <= j < front.len() + 1 && front.push(names.last())[j] == name;
                    if j < front.len() {
                        assert(front[j] == name);
                    }
                }
            }
        } else {
            assert forall|x: Seq<char>| x != name && names.contains(x) implies #[trigger] without_name(names, name).contains(x) by {
                let k = choose|k: int| 0 <= k < names.len() && names[k] == x;
                assert(k < d.len());
                assert(d[k] == x);
            }
        }
    }
}

proof fn lemma_tags_without_drops(tags: Seq<TagView>, name: Seq<char>)
    ensures
        forall|i: int| 0 <= i < tags_without(tags, name).len() ==> (#[trigger] tags_without(tags, name)[i]).0 != name,
    decreases tags.len(),
{
    if tags.len() > 0 {
        lemma_tags_without_drops(tags.drop_last(), name);
        let front = tags_without(tags.drop_last(), name);
        assert forall|i: int| 0 <= i < tags_without(tags, name).len() implies (#[trigger] tags_without(tags, name)[i]).0 != name by {
            if i < front.len() {
                assert(tags_without(tags, name)[i] == front[i]);
            }
        }
    }
}

/// Once a tag is deleted, no tag has its name, no patch carries it, no
/// patch is left with an empty entry, and every other name a patch carried
/// stays.
pub proof fn lemma_removed_tag_gone(
    tags: Seq<TagView>,
    m: Map<Seq<char>, Seq<Seq<char>>>,
    name: Seq<char>,
)
    ensures
        forall|i: int| 0 <= i < tags_without(tags, name).len() ==> (#[trigger] tags_without(tags, name)[i]).0 != name,
        forall|k: Seq<char>| #[trigger] assignments_without(m, name).contains_key(k) ==> !assignments_without(m, name)[k].contains(name)
            && assignments_without(m, name)[k].len() > 0,
        forall|k: Seq<char>, x: Seq<char>| m.contains_key(k) && x != name && #[trigger] m[k].contains(x)
            ==> assignments_without(m, name).contains_key(k) && assignments_without(m, name)[k].contains(x),
{
    lemma_tags_without_drops(tags, name);
    assert forall|k: Seq<char>| #[trigger] assignments_without(m, name).contains_key(k) implies !assignments_without(m, name)[k].contains(name)
        && assignments_without(m, name)[k].len() > 0 by {
        lemma_without_name_drops(m[k], name);
    }
    assert forall|k: Seq<char>, x: Seq<char>| m.contains_key(k) && x != name && #[trigger] m[k].contains(x)
        implies assignments_without(m, name).contains_key(k) && assignments_without(m, name)[k].contains(x) by {
        lemma_without_name_drops(m[k], name);
        let l = without_name(m[k], name);
        assert(l.contains(x));
        assert(l.len() > 0);
        assert(assignments_without(m, name)[k] == l);
    }
}

} // verus!
