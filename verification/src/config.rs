//! The application's settings: the patch library folder and the palette.
use vstd::prelude::*;
use crate::json::{JsonValue, writable, members_ordered, nested_within, lookup, parse_json, json_parse_result, to_pretty_string, json_pretty_text};
use crate::theme::PaletteId;
use crate::text::text_less;

verus! {

/// The settings that are kept between runs.
pub struct AppConfig {
    pub library_path: Option<String>,
    pub palette: PaletteId,
}

/// The text of an optional string.
pub open spec fn opt_text(s: Option<String>) -> Option<Seq<char>> {
    match s {
        Some(t) => Some(t@),
        None => None,
    }
}

/// The library folder named in a settings document: its `library_path`
/// member where that is a string.
pub open spec fn config_path(v: JsonValue) -> Option<Seq<char>> {
    v.at_key("library_path"@).str_of()
}

/// The palette named in a settings document: the one stored under its
/// `palette` member where that is a string, else the default.
pub open spec fn config_palette(v: JsonValue) -> PaletteId {
    match v.at_key("palette"@).str_of() {
        Some(s) => PaletteId::spec_from_id(s),
        None => PaletteId::Amber,
    }
}

/// `j` is the settings document `{"library_path": .., "palette": ..}` of
/// `path` (`null` when there is none) and `palette`.
pub open spec fn describes_config(j: JsonValue, path: Option<Seq<char>>, palette: PaletteId) -> bool {
    &&& j matches JsonValue::Object(f)
    &&& f@.len() == 2
    &&& f@[0].0@ == "library_path"@
    &&& match path {
        Some(p) => f@[0].1.str_of() == Some(p),
        None => f@[0].1 == JsonValue::Null,
    }
    &&& f@[1].0@ == "palette"@
    &&& f@[1].1.str_of() == Some(palette.spec_id())
}

impl Default for AppConfig {
    /// Settings of a first run: no library folder, the amber palette.
    fn default() -> (c: AppConfig)
        ensures
            c.library_path is None,
            c.palette == PaletteId::Amber,
    {
        AppConfig { library_path: None, palette: PaletteId::Amber }
    }

}

impl AppConfig {
    /// The settings a parsed settings document gives. The folder is the one
    /// named there; whether it still exists is for the caller to check.
    pub fn from_json(v: &JsonValue) -> (c: AppConfig)
        ensures
            opt_text(c.library_path) == config_path(*v),
            c.palette == config_palette(*v),
    {
        let library_path = match v.get_key("library_path") {
            Some(m) => match m.as_str() {
                Some(s) => Some(s.to_owned()),
                None => None,
            },
            None => None,
        };
        let palette = match v.get_key("palette") {
            Some(m) => match m.as_str() {
                Some(s) => PaletteId::from_id(s),
                None => PaletteId::Amber,
            },
            None => PaletteId::Amber,
        };
        AppConfig { library_path, palette }
    }

    /// The settings that a settings file's text gives: as `from_json` on
    /// the parsed document, or the first-run settings where the text does
    /// not parse.
    pub fn parse(text: &str) -> (c: AppConfig)
        ensures
            match json_parse_result(text@) {
                Some(v) => opt_text(c.library_path) == config_path(v) && c.palette
                    == config_palette(v),
                None => c.library_path is None && c.palette == PaletteId::Amber,
            },
    {
        match parse_json(text) {
            Some(v) => AppConfig::from_json(&v),
            None => AppConfig::default(),
        }
    }

    /// The settings document of these settings.
    pub fn to_json(&self) -> (j: JsonValue)
        ensures
            describes_config(j, opt_text(self.library_path), self.palette),
            writable(j),
    {
        let path_value = match &self.library_path {
            Some(p) => JsonValue::Str(p.clone()),
            None => JsonValue::Null,
        };
        assert(writable(path_value));
        let mut fields: Vec<(String, JsonValue)> = Vec::new();
        fields.push(("library_path".to_owned(), path_value));
        fields.push(("palette".to_owned(), JsonValue::Str(self.palette.id().to_owned())));
        let j = JsonValue::Object(fields);
        assert(writable(j)) by {
            assert(writable(fields@[0].1));
            assert(writable(fields@[1].1));
            assert forall|k: int| 0 <= k < fields@.len() implies #[trigger] writable(fields@[k].1) by {}
        }
        j
    }

    /// The text of the settings file: the settings document, pretty-printed.
    /// Reading it back (as `parse` does) gives these settings.
    pub fn to_json_string(&self) -> (s: String)
        ensures
            exists|j: JsonValue| describes_config(j, opt_text(self.library_path), self.palette)
                && s@ == json_pretty_text(j),
            json_parse_result(s@) matches Some(v) && config_path(v) == opt_text(self.library_path)
                && config_palette(v) == self.palette,
    {
        let j = self.to_json();
        proof {
            reveal_strlit("library_path");
            reveal_strlit("palette");
            let f = j->Object_0@;
            assert("library_path"@[0] == 'l' && "palette"@[0] == 'p');
            assert(text_less(f[0].0@, f[1].0@));
            assert forall|a: int, b: int| 0 <= a < b < f.len() implies text_less(
                #[trigger] f[a].0@,
                #[trigger] f[b].0@,
            ) by {
                assert(a == 0 && b == 1);
            }
            assert forall|i: int| 0 <= i < f.len() implies #[trigger] members_ordered(f[i].1)
                && nested_within(f[i].1, 99) by {
                assert(f[i].1 matches JsonValue::Str(_) || f[i].1 matches JsonValue::Null);
            }
            reveal_with_fuel(members_ordered, 2);
            reveal_with_fuel(nested_within, 2);
            assert(members_ordered(j));
            assert(nested_within(j, 100));
            lemma_config_document_roundtrip(j, opt_text(self.library_path), self.palette);
        }
        to_pretty_string(&j)
    }
}

/// Reading back the settings document of some settings gives the same
/// folder and palette.
pub proof fn lemma_config_document_roundtrip(j: JsonValue, path: Option<Seq<char>>, palette: PaletteId)
    requires
        describes_config(j, path, palette),
    ensures
        config_path(j) == path,
        config_palette(j) == palette,
{
    reveal_strlit("library_path");
    reveal_strlit("palette");
    assert("library_path"@.len() == 12 && "palette"@.len() == 7);
    let f = j->Object_0@;
    assert(f.drop_first()[0] == f[1]);
    assert(f[0].0@ != "palette"@);
    assert(lookup(f, "palette"@) == lookup(f.drop_first(), "palette"@));
    assert(lookup(f.drop_first(), "palette"@) == Some(f[1].1));
    crate::theme::lemma_palette_id_roundtrip(palette);
}

} // verus!
