use tone_mark::config::AppConfig;
use tone_mark::export::TypeNames;
use tone_mark::json::JsonValue;
use tone_mark::katana::{Param, TypeCodes};
use tone_mark::library::TagColor;
use tone_mark::state::{AmpState, AppTab, FxBlock, TargetChannel};
use tone_mark::sysex::build_sysex;
use tone_mark::theme::PaletteId;
use tone_mark::tone::{katana_port, stem_passes, ConnectOutcome, Slot, ToneApp};

fn model(v: serde_json::Value) -> JsonValue {
    match v {
        serde_json::Value::Null => JsonValue::Null,
        serde_json::Value::Bool(b) => JsonValue::Bool(b),
        serde_json::Value::Number(n) => match n.as_u64() {
            Some(u) => JsonValue::UInt(u),
            None => JsonValue::OtherNumber,
        },
        serde_json::Value::String(s) => JsonValue::Str(s),
        serde_json::Value::Array(a) => JsonValue::Array(a.into_iter().map(model).collect()),
        serde_json::Value::Object(m) => JsonValue::Object(m.into_iter().map(|(k, x)| (k, model(x))).collect()),
    }
}

fn doc(text: &str) -> JsonValue {
    model(serde_json::from_str(text).unwrap())
}

fn connected_app() -> ToneApp {
    let mut app = ToneApp::default();
    app.connect_outcome("KATANA MIDI 1", ConnectOutcome::Connected);
    app
}

#[test]
fn start_up_state() {
    let app = ToneApp::default();
    assert!(!app.connected);
    assert_eq!(app.status_msg, "Ready.");
    assert_eq!(app.target, TargetChannel::Panel);
    assert_eq!(app.current_tab, AppTab::Library);
    assert_eq!(app.new_tag_color, TagColor::Sky);
    assert_eq!(app.mod_fx, FxBlock::new(false, 26));
    assert_eq!(app.fx, FxBlock::new(false, 17));
    assert_eq!(app.library_meta.tags.len(), 8);
}

#[test]
fn new_uses_stored_settings_or_fallback() {
    let app = ToneApp::new(AppConfig { library_path: Some("/lib".into()), palette: PaletteId::Cyan }, Some("/fallback".into()));
    assert_eq!(app.library_path.as_deref(), Some("/lib"));
    assert_eq!(app.palette, PaletteId::Cyan);
    let app = ToneApp::new(AppConfig::default(), Some("/fallback".into()));
    assert_eq!(app.library_path.as_deref(), Some("/fallback"));
    let app = ToneApp::new(AppConfig::default(), None);
    assert!(app.library_path.is_none());
}

#[test]
fn send_param_needs_a_connection() {
    let app = ToneApp::default();
    assert!(app.send_param([0x00, 0x00, 0x11], 5).is_none());
    let mut app = connected_app();
    app.select_target(TargetChannel::Ch2);
    assert_eq!(app.send_param([0x00, 0x00, 0x11], 5), Some(build_sysex([0x11, 0x00, 0x00, 0x11], &[5])));
}

#[test]
fn program_change_message() {
    let app = connected_app();
    assert_eq!(app.send_program_change(3), Some(vec![0xC0, 3]));
    assert_eq!(app.send_program_change(0x85), Some(vec![0xC0, 0x05]));
    assert!(ToneApp::default().send_program_change(1).is_none());
}

#[test]
fn select_target_reports_and_switches() {
    let mut app = connected_app();
    assert_eq!(app.select_target(TargetChannel::Ch3), Some(vec![0xC0, 2]));
    assert_eq!(app.status_msg, "Switched to CH3.");
    assert_eq!(app.select_target(TargetChannel::Panel), None);
    assert_eq!(app.status_msg, "Switched to PANEL.");
    let mut off = ToneApp::default();
    assert_eq!(off.select_target(TargetChannel::Ch1), None);
    assert_eq!(off.target, TargetChannel::Ch1);
}

#[test]
fn connection_outcomes() {
    let mut app = ToneApp::default();
    app.connect_outcome("X", ConnectOutcome::PortNotFound);
    assert_eq!(app.status_msg, "Port 'X' not found.");
    app.connect_outcome("X", ConnectOutcome::PortBusy);
    assert_eq!(app.status_msg, "MIDI port busy.");
    app.connect_outcome("X", ConnectOutcome::InitError);
    assert_eq!(app.status_msg, "MIDI init error.");
    assert!(!app.connected);
    app.connect_outcome("KATANA", ConnectOutcome::Connected);
    assert!(app.connected);
    assert_eq!(app.amp_name.as_deref(), Some("KATANA"));
    assert_eq!(app.status_msg, "Connected to KATANA.");
    app.disconnect();
    assert!(!app.connected);
    assert!(app.amp_name.is_none());
    assert_eq!(app.status_msg, "Disconnected.");
}

#[test]
fn finding_the_katana_port() {
    let ports = vec!["Midi Through".to_string(), "Boss katana:KATANA MIDI 1".to_string(), "KATANA 2".to_string()];
    assert_eq!(katana_port(&ports), Some(1));
    let mut app = ToneApp::default();
    assert_eq!(app.connect_katana(&ports), Some(1));
    assert_eq!(app.connect_katana(&vec!["Synth".to_string()]), None);
    assert_eq!(app.status_msg, "Katana not found — choose a port from the menu.");
}

#[test]
fn base_addresses() {
    assert_eq!(ToneApp::get_base_address("UserPatch%Delay(2)"), Some([0x60, 0x00, 0x05, 0x20]));
    assert_eq!(ToneApp::get_base_address("nothing"), None);
}

const PATCH: &str = r#"{"data": [[{"patchName": "P", "paramSet": {"UserPatch%Patch_0": ["10", "20"], "UserPatch%Eq(2)": ["01"]}}]]}"#;

#[test]
fn apply_patch_statuses() {
    let mut app = ToneApp::default();
    app.selected_patch = Some("/lib/p.tsl".into());
    assert!(app.apply_patch(Some(PATCH)).is_empty());
    assert_eq!(app.status_msg, "Connect the amp first.");
    let mut app = connected_app();
    assert!(app.apply_patch(Some(PATCH)).is_empty());
    assert_eq!(app.status_msg, "Connect the amp first.");
    app.selected_patch = Some("/lib/p.tsl".into());
    assert!(app.apply_patch(None).is_empty());
    assert_eq!(app.status_msg, "Cannot read file.");
    assert!(app.apply_patch(Some("{oops")).is_empty());
    assert_eq!(app.status_msg, "Invalid TSL JSON.");
    app.select_target(TargetChannel::Ch4);
    let msgs = app.apply_patch(Some(PATCH));
    assert_eq!(msgs, vec![build_sysex([0x13, 0x00, 0x01, 0x00], &[0x01]), build_sysex([0x13, 0x00, 0x00, 0x10], &[0x10, 0x20])]);
    assert_eq!(app.status_msg, "Patch loaded (2 blocks to CH4).");
}

#[test]
fn parse_patch_info_of_text() {
    let info = ToneApp::parse_patch_info(PATCH, Some("p")).unwrap();
    assert_eq!(info.name, "P");
    assert_eq!(info.block_count, 2);
    assert!(ToneApp::parse_patch_info("not json", Some("p")).is_none());
}

#[test]
fn snapshots_save_and_recall() {
    let mut app = ToneApp::default();
    assert!(!app.recall_snapshot(Slot::A));
    app.amp.gain = 99;
    app.save_snapshot(Slot::A);
    assert_eq!(app.status_msg, "Snapshot A saved.");
    app.amp.gain = 5;
    app.booster.on = true;
    assert!(app.recall_snapshot(Slot::A));
    assert_eq!(app.status_msg, "Recalled A.");
    assert_eq!(app.amp.gain, 99);
    assert!(!app.booster.on);
    let s = app.make_snapshot();
    app.reset_defaults();
    app.load_snapshot(s);
    assert_eq!(app.amp.gain, 99);
}

#[test]
fn reset_defaults_restores_blocks() {
    let mut app = connected_app();
    app.amp.gain = 1;
    app.fx = FxBlock::new(true, 3);
    assert!(app.reset_defaults());
    assert_eq!(app.amp, AmpState::default());
    assert_eq!(app.fx, FxBlock::new(false, 17));
    assert_eq!(app.status_msg, "Editor reset to defaults.");
    assert!(!ToneApp::default().reset_defaults());
}

#[test]
fn palette_choice() {
    let mut app = ToneApp::default();
    assert!(!app.choose_palette(PaletteId::Amber));
    assert!(!app.pending_theme_refresh);
    assert!(app.choose_palette(PaletteId::Pink));
    assert!(app.pending_theme_refresh);
    assert_eq!(app.palette, PaletteId::Pink);
    assert_eq!(app.save_config().palette, PaletteId::Pink);
}

fn library_app() -> ToneApp {
    let mut app = ToneApp::default();
    app.library_path = Some("/lib".into());
    let meta = r#"{"tags": [{"name": "Lead", "color": "crimson"}, {"name": "Clean", "color": "lime"}],
                   "assignments": {"rock/Hot.tsl": ["Lead"], "Warm.tsl": ["Clean", "Lead"]}}"#;
    app.refresh_library(
        vec!["/lib/Warm.tsl".into(), "/lib/rock/Hot.tsl".into(), "/lib/Cool.tsl".into()],
        Some(meta),
    );
    app
}

#[test]
fn refresh_library_sorts_and_loads_metadata() {
    let app = library_app();
    assert_eq!(app.patches, vec!["/lib/Cool.tsl", "/lib/Warm.tsl", "/lib/rock/Hot.tsl"]);
    assert_eq!(app.library_meta.tags.len(), 2);
    let mut app = ToneApp::default();
    app.active_tag_filters = vec!["Lead".into()];
    app.refresh_library(vec!["/x.tsl".into()], Some("{}"));
    assert!(app.patches.is_empty());
    assert_eq!(app.library_meta.tags.len(), 8);
    assert_eq!(app.active_tag_filters, vec!["Lead".to_string()]);
}

#[test]
fn refresh_library_drops_stale_selection_and_filters() {
    let mut app = library_app();
    assert!(app.select_patch("/lib/Warm.tsl".into()));
    assert!(!app.select_patch("/lib/Warm.tsl".into()));
    app.active_tag_filters = vec!["Lead".into(), "Gone".into()];
    app.refresh_library(vec!["/lib/Warm.tsl".into()], None);
    assert_eq!(app.selected_patch.as_deref(), Some("/lib/Warm.tsl"));
    assert_eq!(app.active_tag_filters, vec!["Lead".to_string()]);
    app.refresh_library(vec!["/lib/Other.tsl".into()], None);
    assert!(app.selected_patch.is_none());
    assert!(app.selected_patch_info.is_none());
}

#[test]
fn relative_paths() {
    let app = library_app();
    assert_eq!(app.rel_path("/lib/rock/Hot.tsl").as_deref(), Some("rock/Hot.tsl"));
    assert_eq!(app.rel_path("/other/x.tsl"), None);
    assert_eq!(ToneApp::default().rel_path("/lib/x.tsl"), None);
    assert_eq!(app.popup_patch_name("rock/Hot.tsl"), "Hot");
    assert_eq!(app.popup_patch_name("missing.tsl"), "missing.tsl");
}

#[test]
fn filtering_by_search_and_tags() {
    let mut app = library_app();
    assert_eq!(app.filtered_patches().len(), 3);
    app.library_search = "HO".into();
    assert_eq!(app.filtered_patches(), vec!["/lib/rock/Hot.tsl"]);
    app.library_search = String::new();
    app.toggle_filter("Lead");
    assert_eq!(app.filtered_patches(), vec!["/lib/Warm.tsl", "/lib/rock/Hot.tsl"]);
    app.toggle_filter("Clean");
    assert_eq!(app.filtered_patches(), vec!["/lib/Warm.tsl"]);
    app.toggle_filter("Lead");
    app.toggle_filter("Clean");
    assert!(app.active_tag_filters.is_empty());
}

#[test]
fn tag_manager_changes() {
    let mut app = library_app();
    app.toggle_filter("Lead");
    app.remove_tag("Lead");
    assert!(app.active_tag_filters.is_empty());
    assert!(app.library_meta.assignments.get("rock/Hot.tsl").is_none());
    app.new_tag_name = "  Fuzz ".into();
    app.new_tag_color = TagColor::Teal;
    assert!(app.add_new_tag());
    assert_eq!(app.new_tag_name, "");
    assert_eq!(app.library_meta.tags.last().unwrap().name, "Fuzz");
    app.new_tag_name = "fuzz".into();
    assert!(!app.add_new_tag());
    assert_eq!(app.new_tag_name, "fuzz");
}

fn codes() -> TypeCodes {
    TypeCodes {
        amp: vec![0x00, 0x01, 0x08],
        booster: vec![0x00, 0x01],
        mod_fx: vec![],
        fx: vec![0x11],
        delay: vec![0x00],
        reverb: vec![0x00, 0x03],
    }
}

#[test]
fn resend_all_writes_every_parameter() {
    let mut app = ToneApp::default();
    app.amp.bright = true;
    app.booster.type_idx = 300;
    let w = app.resend_all(&codes());
    assert_eq!(w.len(), 34);
    assert_eq!(w[0], (Param::AmpType, 0x01));
    assert_eq!(w[7], (Param::AmpBright, 1));
    assert_eq!(w[11], (Param::BoosterType, 44));
    assert_eq!(w[17], (Param::ModType, 0));
    assert_eq!(w[19], (Param::FxType, 0));
    assert_eq!(w[26], (Param::ReverbType, 0x03));
    assert_eq!(w[33], (Param::NsRelease, 40));
}

#[test]
fn exported_state_parses_back() {
    let mut app = ToneApp::default();
    app.amp.gain = 77;
    let names = TypeNames {
        amp: vec!["ACOUSTIC".into(), "CLEAN".into()],
        booster: vec![],
        mod_fx: vec![],
        fx: vec![],
        delay: vec!["DIGITAL".into()],
        reverb: vec![],
    };
    let text = app.save_state_as_tsl(&names);
    let doc = doc(&text);
    assert!(matches!(doc.get_key("exportedFromToneMarkII"), Some(JsonValue::Bool(true))));
    let amp = doc.get_key("amp").unwrap();
    assert_eq!(amp.get_key("type").unwrap().as_str(), Some("CLEAN"));
    assert!(matches!(amp.get_key("gain"), Some(JsonValue::UInt(77))));
    assert_eq!(doc.get_key("booster").unwrap().get_key("type").unwrap().as_str(), Some(""));
    assert_eq!(doc.get_key("delay").unwrap().get_key("type").unwrap().as_str(), Some("DIGITAL"));
    assert!(matches!(doc.get_key("noiseSuppressor").unwrap().get_key("release"), Some(JsonValue::UInt(40))));
}

#[test]
fn search_and_filter_predicates() {
    assert!(stem_passes(None, ""));
    assert!(stem_passes(Some("warm"), "ar"));
    assert!(!stem_passes(Some("warm"), "cold"));
    assert!(!stem_passes(None, "a"));
    let mut app = library_app();
    assert!(app.passes_tag_filters("anything"));
    app.toggle_filter("Clean");
    assert!(app.passes_tag_filters("Warm.tsl"));
    assert!(!app.passes_tag_filters("rock/Hot.tsl"));
    assert!(!app.passes_tag_filters("nowhere.tsl"));
}

#[test]
fn set_library_contents_keeps_given_order() {
    let mut app = ToneApp::default();
    app.set_library_contents(vec!["b.tsl".into(), "a.tsl".into()], Some("[]"));
    assert_eq!(app.patches, vec!["b.tsl", "a.tsl"]);
    assert_eq!(app.library_meta.tags.len(), 8);
}

#[test]
fn selection_compares_paths_by_components() {
    let mut app = library_app();
    assert!(app.select_patch("/lib/Warm.tsl".into()));
    assert!(!app.select_patch("/lib//Warm.tsl".into()));
    app.refresh_library(vec!["/lib/Warm.tsl".into()], None);
    assert_eq!(app.selected_patch.as_deref(), Some("/lib//Warm.tsl"));
    app.library_search = String::new();
    app.active_tag_filters.clear();
    assert_eq!(app.filtered_patches(), app.patches);
}
