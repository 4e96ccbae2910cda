//! The application's state and the decisions it takes: what is sent to the
//! amplifier for each edit, which status line is shown, what the library
//! lists. Sending, reading files and drawing are done by the caller with
//! what these functions return.
use vstd::prelude::*;
use crate::state::{TargetChannel, AppTab, AmpState, FxBlock, DelayState, ReverbState, NsState, Snapshot, PatchInfo};
use crate::theme::PaletteId;
use crate::library::{LibraryMeta, TagColor, TagView, default_tags, without_name, tags_without, assignments_without, can_add, loaded_tags, loaded_assignments};
use crate::assignments::names_view;
use crate::config::{AppConfig, opt_text};
use crate::json::{JsonValue, parse_json, json_parse_result, object_fields, to_pretty_string, json_pretty_text};
use crate::patch::{patch_messages, patch_messages_of, param_set, messages_view, display_name, memo_of, block_count_of};
use crate::paths::{paths_equal, find_path, same_path, file_stem, strip_prefix, sort_paths, to_forward_slashes, forward_slashes, path_file_stem, path_strip_prefix, paths_in_order};
use crate::katana::{Param, TypeCodes, resend_writes, resend_writes_of};
use crate::export::{TypeNames, describes_state, state_document};
use crate::text::{str_eq, contains_str, occurs_in, to_lowercase, lowercase, to_uppercase, uppercase, join, decimal, decimal_string};
use crate::sysex::{build_sysex, sysex_message};

verus! {

/// Everything the application keeps between frames. The MIDI connection
/// itself stays with the caller; `connected` says whether there is one.
pub struct ToneApp {
    pub connected: bool,
    pub amp_name: Option<String>,
    pub available_ports: Vec<String>,
    pub status_msg: String,
    pub target: TargetChannel,
    pub current_tab: AppTab,
    pub palette: PaletteId,
    pub pending_theme_refresh: bool,
    pub library_path: Option<String>,
    pub patches: Vec<String>,
    pub selected_patch: Option<String>,
    pub library_search: String,
    pub selected_patch_info: Option<PatchInfo>,
    pub library_meta: LibraryMeta,
    pub active_tag_filters: Vec<String>,
    pub tag_popup_for: Option<String>,
    pub show_tag_manager: bool,
    pub new_tag_name: String,
    pub new_tag_color: TagColor,
    pub amp: AmpState,
    pub booster: FxBlock,
    pub mod_fx: FxBlock,
    pub fx: FxBlock,
    pub delay: DelayState,
    pub reverb: ReverbState,
    pub ns: NsState,
    pub snap_a: Option<Snapshot>,
    pub snap_b: Option<Snapshot>,
}

/// The editor blocks of a fresh editor.
pub open spec fn initial_blocks() -> Snapshot {
    Snapshot {
        amp: AmpState::initial(),
        booster: FxBlock { on: false, type_idx: 0, p1: 50, p2: 50, p3: 50, p4: 60 },
        mod_fx: FxBlock { on: false, type_idx: 26, p1: 50, p2: 50, p3: 50, p4: 60 },
        fx: FxBlock { on: false, type_idx: 17, p1: 50, p2: 50, p3: 50, p4: 60 },
        delay: DelayState::initial(),
        reverb: ReverbState::initial(),
        ns: NsState::initial(),
    }
}

/// The program change message that selects program `pc`.
pub open spec fn program_change_message(pc: u8) -> Seq<u8> {
    seq![0xC0u8, pc & 0x7Fu8]
}

impl ToneApp {
    /// The editor's blocks.
    pub open spec fn blocks(&self) -> Snapshot {
        Snapshot {
            amp: self.amp,
            booster: self.booster,
            mod_fx: self.mod_fx,
            fx: self.fx,
            delay: self.delay,
            reverb: self.reverb,
            ns: self.ns,
        }
    }

    /// The application with its editor blocks replaced by `s`, all else as
    /// it is.
    pub open spec fn with_blocks(self, s: Snapshot) -> ToneApp {
        ToneApp {
            amp: s.amp,
            booster: s.booster,
            mod_fx: s.mod_fx,
            fx: s.fx,
            delay: s.delay,
            reverb: s.reverb,
            ns: s.ns,
            ..self
        }
    }

    /// Well formed: the library metadata is, and every patch that has an
    /// assignment entry carries at least one tag name.
    pub open spec fn wf(&self) -> bool {
        &&& self.library_meta.wf()
        &&& self.library_meta.assignments.no_empty_lists()
    }

    /// The message that writes `value` to the parameter at
    /// `address_offset` of the target channel; `None` when not connected.
    pub fn send_param(&self, address_offset: [u8; 3], value: u8) -> (msg: Option<Vec<u8>>)
        ensures
            match msg {
                Some(m) => self.connected && m@ == sysex_message(
                    seq![self.target.spec_msb()] + address_offset@,
                    seq![value],
                ),
                None => !self.connected,
            },
    {
        if !self.connected {
            return None;
        }
        let msb = self.target.msb();
        let address = [msb, address_offset[0], address_offset[1], address_offset[2]];
        let payload = [value];
        let m = build_sysex(address, &payload);
        assert(address@ =~= seq![self.target.spec_msb()] + address_offset@);
        assert(payload@ =~= seq![value]);
        Some(m)
    }

    /// The program change message for program `pc`; `None` when not
    /// connected.
    pub fn send_program_change(&self, pc: u8) -> (msg: Option<Vec<u8>>)
        ensures
            match msg {
                Some(m) => self.connected && m@ == program_change_message(pc),
                None => !self.connected,
            },
    {
        if !self.connected {
            return None;
        }
        let mut m: Vec<u8> = Vec::new();
        m.push(0xC0);
        m.push(pc & 0x7F);
        assert(m@ =~= program_change_message(pc));
        Some(m)
    }

    /// Makes `t` the target channel and says so in the status line; the
    /// result is the program change that selects a stored channel, when
    /// connected.
    pub fn select_target(&mut self, t: TargetChannel) -> (msg: Option<Vec<u8>>)
        ensures
            *final(self) == (ToneApp { target: t, status_msg: final(self).status_msg, ..*old(self) }),
            final(self).status_msg@ == "Switched to "@ + t.spec_short() + "."@,
            match msg {
                Some(m) => old(self).connected && t.spec_program_change() is Some && m@
                    == program_change_message(t.spec_program_change()->0),
                None => !old(self).connected || t.spec_program_change() is None,
            },
    {
        self.target = t;
        let msg = match t.program_change() {
            Some(pc) => self.send_program_change(pc),
            None => None,
        };
        self.status_msg = join("Switched to ", t.short()).concat(".");
        msg
    }

    /// Address of the parameter block `key` of a patch file.
    pub fn get_base_address(key: &str) -> (r: Option<[u8; 4]>)
        ensures
            match r {
                Some(a) => crate::patch::base_address(key@) == Some(a@),
                None => crate::patch::base_address(key@) is None,
            },
    {
        crate::patch::block_address(key)
    }

    /// The editor's blocks, for A/B comparison.
    pub fn make_snapshot(&self) -> (s: Snapshot)
        ensures
            s == self.blocks(),
    {
        Snapshot {
            amp: self.amp,
            booster: self.booster,
            mod_fx: self.mod_fx,
            fx: self.fx,
            delay: self.delay,
            reverb: self.reverb,
            ns: self.ns,
        }
    }
}

impl ToneApp {
    /// The state at start-up, but for the palette and the library folder:
    /// not connected, status `Ready.`, editing the panel on the library
    /// page, no patches, the starter tags without assignments, no filter,
    /// the editor's initial blocks and no snapshots.
    pub open spec fn at_start_up(&self) -> bool {
        &&& !self.connected
        &&& self.amp_name is None
        &&& self.available_ports@.len() == 0
        &&& self.status_msg@ == "Ready."@
        &&& self.target == TargetChannel::Panel
        &&& self.current_tab == AppTab::Library
        &&& !self.pending_theme_refresh
        &&& self.patches@.len() == 0
        &&& self.selected_patch is None
        &&& self.library_search@.len() == 0
        &&& self.selected_patch_info is None
        &&& self.library_meta.tag_list() == default_tags()
        &&& self.library_meta.assignments@ == Map::<Seq<char>, Seq<Seq<char>>>::empty()
        &&& self.active_tag_filters@.len() == 0
        &&& self.tag_popup_for is None
        &&& !self.show_tag_manager
        &&& self.new_tag_name@.len() == 0
        &&& self.new_tag_color == TagColor::Sky
        &&& self.blocks() == initial_blocks()
        &&& self.snap_a is None
        &&& self.snap_b is None
    }
}

impl Default for ToneApp {
    /// The state at start-up: not connected, status `Ready.`, editing the
    /// panel on the library page, the amber palette, no library folder,
    /// the starter tags, the editor's initial blocks and no snapshots.
    fn default() -> (a: ToneApp)
        ensures
            a.wf(),
            a.at_start_up(),
            a.palette == PaletteId::Amber,
            a.library_path is None,
    {
        ToneApp {
            connected: false,
            amp_name: None,
            available_ports: Vec::new(),
            status_msg: "Ready.".to_owned(),
            target: TargetChannel::Panel,
            current_tab: AppTab::Library,
            palette: PaletteId::Amber,
            pending_theme_refresh: false,
            library_path: None,
            patches: Vec::new(),
            selected_patch: None,
            library_search: String::new(),
            selected_patch_info: None,
            library_meta: LibraryMeta::default(),
            active_tag_filters: Vec::new(),
            tag_popup_for: None,
            show_tag_manager: false,
            new_tag_name: String::new(),
            new_tag_color: TagColor::Sky,
            amp: AmpState::default(),
            booster: FxBlock::new(false, 0),
            mod_fx: FxBlock::new(false, 26),
            fx: FxBlock::new(false, 17),
            delay: DelayState::default(),
            reverb: ReverbState::default(),
            ns: NsState::default(),
            snap_a: None,
            snap_b: None,
        }
    }
}

/// The path of `p` relative to the library folder `lib`, with forward
/// slashes; `None` without a folder or when `p` is not inside it.
pub open spec fn rel_of(lib: Option<Seq<char>>, p: Seq<char>) -> Option<Seq<char>> {
    match lib {
        Some(b) => match path_strip_prefix(p, b) {
            Some(r) => Some(forward_slashes(r)),
            None => None,
        },
        None => None,
    }
}

/// Whether the patch at `p` passes the search text `search`: the search is
/// empty, or the lower case of the file's stem holds the lower case of the
/// search.
pub open spec fn name_matches(p: Seq<char>, search: Seq<char>) -> bool {
    let q = lowercase(search);
    q.len() == 0 || (path_file_stem(p) is Some && occurs_in(lowercase(path_file_stem(p)->0), q))
}

/// Whether the patch at `p` passes the tag filters `active`: there are
/// none, or the patch carries every one of them.
pub open spec fn tags_match(
    m: Map<Seq<char>, Seq<Seq<char>>>,
    lib: Option<Seq<char>>,
    p: Seq<char>,
    active: Seq<Seq<char>>,
) -> bool {
    let rel = match rel_of(lib, p) {
        Some(r) => r,
        None => Seq::empty(),
    };
    active.len() == 0 || (m.contains_key(rel) && forall|i: int|
        0 <= i < active.len() ==> m[rel].contains(#[trigger] active[i]))
}

/// The patches that the library page lists, in order.
pub open spec fn shown_patches(
    patches: Seq<Seq<char>>,
    search: Seq<char>,
    m: Map<Seq<char>, Seq<Seq<char>>>,
    lib: Option<Seq<char>>,
    active: Seq<Seq<char>>,
) -> Seq<Seq<char>>
    decreases patches.len(),
{
    if patches.len() == 0 {
        Seq::empty()
    } else {
        let front = shown_patches(patches.drop_last(), search, m, lib, active);
        let p = patches.last();
        if name_matches(p, search) && tags_match(m, lib, p, active) {
            front.push(p)
        } else {
            front
        }
    }
}

/// Whether a patch passes the search: the lower-cased search `query_lower`
/// is empty, or the patch's lower-cased stem `stem_lower` holds it.
pub fn stem_passes(stem_lower: Option<&str>, query_lower: &str) -> (r: bool)
    ensures
        r == (query_lower@.len() == 0 || match stem_lower {
            Some(s) => occurs_in(s@, query_lower@),
            None => false,
        }),
{
    if query_lower.unicode_len() == 0 {
        return true;
    }
    match stem_lower {
        Some(s) => contains_str(s, query_lower),
        None => false,
    }
}

/// The tag filters after the filter `name` is toggled: removed (its first
/// occurrence) where it is active, else added at the end.
pub open spec fn filters_toggled(f: Seq<Seq<char>>, name: Seq<char>) -> Seq<Seq<char>> {
    match f.index_of_first(name) {
        Some(p) => f.remove(p),
        None => f.push(name),
    }
}

/// Toggling a tag filter that is off turns it on, and toggling it again
/// gives back the filters as they were; where no filter is active twice,
/// toggling one that is on turns it off.
pub proof fn lemma_filter_toggle_flips(f: Seq<Seq<char>>, name: Seq<char>)
    ensures
        !f.contains(name) ==> filters_toggled(f, name).contains(name),
        !f.contains(name) ==> filters_toggled(filters_toggled(f, name), name) == f,
        f.no_duplicates() && f.contains(name) ==> !filters_toggled(f, name).contains(name),
{
    f.index_of_first_ensures(name);
    if !f.contains(name) {
        let g = f.push(name);
        assert(g[f.len() as int] == name);
        assert(g.contains(name));
        g.index_of_first_ensures(name);
        let p = g.index_of_first(name)->0;
        assert(p == f.len()) by {
            if p < f.len() {
                assert(f[p] == name);
            }
        }
        assert(g.remove(p) =~= f);
    } else if f.no_duplicates() {
        let p = f.index_of_first(name)->0;
        let rest = f.remove(p);
        assert(!rest.contains(name)) by {
            if rest.contains(name) {
                let k = choose|k: int| 0 <= k < rest.len() && rest[k] == name;
                if k < p {
                    assert(f[k] == name);
                } else {
                    assert(f[k + 1] == name);
                }
            }
        }
    }
}

/// Whether some tag of `tags` is named `name`.
pub open spec fn is_tag_name(tags: Seq<TagView>, name: Seq<char>) -> bool {
    exists|i: int| 0 <= i < tags.len() && #[trigger] tags[i].0 == name
}

/// The filters that name a tag of `tags`, in order.
pub open spec fn known_filters(f: Seq<Seq<char>>, tags: Seq<TagView>) -> Seq<Seq<char>>
    decreases f.len(),
{
    if f.len() == 0 {
        Seq::empty()
    } else {
        let front = known_filters(f.drop_last(), tags);
        if is_tag_name(tags, f.last()) {
            front.push(f.last())
        } else {
            front
        }
    }
}

/// How an attempt to open a MIDI port ended.
#[derive(PartialEq, Eq, Structural, Clone, Copy, Debug)]
pub enum ConnectOutcome {
    /// The MIDI system could not be opened.
    InitError,
    /// No port has the name asked for.
    PortNotFound,
    /// The port would not open.
    PortBusy,
    /// The port is open.
    Connected,
}

/// Whether a MIDI port name is that of a Katana: its upper case holds
/// `KATANA`.
pub open spec fn is_katana_port(name: Seq<char>) -> bool {
    occurs_in(uppercase(name), "KATANA"@)
}

/// The first of `ports` that is a Katana.
pub fn katana_port(ports: &Vec<String>) -> (r: Option<usize>)
    ensures
        match r {
            Some(i) => i < ports@.len() && is_katana_port(ports@[i as int]@) && forall|k: int|
                0 <= k < i ==> !is_katana_port(#[trigger] ports@[k]@),
            None => forall|k: int| 0 <= k < ports@.len() ==> !is_katana_port(#[trigger] ports@[k]@),
        },
{
    let n = ports.len();
    let mut i: usize = 0;
    while i < n
        invariant
            n == ports@.len(),
            i <= n,
            forall|k: int| 0 <= k < i ==> !is_katana_port(#[trigger] ports@[k]@),
        decreases n - i,
    {
        let up = to_uppercase(ports[i].as_str());
        if contains_str(up.as_str(), "KATANA") {
            return Some(i);
        }
        i = i + 1;
    }
    None
}

fn contains_name(list: &Vec<String>, name: &str) -> (r: Option<usize>)
    ensures
        match r {
            Some(i) => i < list@.len() && list@[i as int]@ == name@ && forall|k: int|
                0 <= k < i ==> #[trigger] list@[k]@ != name@,
            None => forall|k: int| 0 <= k < list@.len() ==> #[trigger] list@[k]@ != name@,
        },
{
    let n = list.len();
    let mut i: usize = 0;
    while i < n
        invariant
            n == list@.len(),
            i <= n,
            forall|k: int| 0 <= k < i ==> #[trigger] list@[k]@ != name@,
        decreases n - i,
    {
        if str_eq(list[i].as_str(), name) {
            return Some(i);
        }
        i = i + 1;
    }
    None
}

impl ToneApp {
    /// The settings to keep: the library folder and the palette.
    pub fn save_config(&self) -> (c: AppConfig)
        ensures
            opt_text(c.library_path) == opt_text(self.library_path),
            c.palette == self.palette,
    {
        let library_path = match &self.library_path {
            Some(p) => Some(p.clone()),
            None => None,
        };
        AppConfig { library_path, palette: self.palette }
    }

    /// The path of `p` relative to the library folder, with forward
    /// slashes; `None` without a folder or when `p` is outside it.
    pub fn rel_path(&self, p: &str) -> (r: Option<String>)
        ensures
            opt_text(r) == rel_of(opt_text(self.library_path), p@),
    {
        match &self.library_path {
            Some(base) => match strip_prefix(p, base.as_str()) {
                Some(r) => Some(to_forward_slashes(r.as_str())),
                None => None,
            },
            None => None,
        }
    }

    /// Forgets the connection: no amplifier name, status `Disconnected.`.
    pub fn disconnect(&mut self)
        ensures
            *final(self) == (ToneApp {
                connected: false,
                amp_name: None,
                status_msg: final(self).status_msg,
                ..*old(self)
            }),
            final(self).status_msg@ == "Disconnected."@,
    {
        self.connected = false;
        self.amp_name = None;
        self.status_msg = "Disconnected.".to_owned();
    }

    /// Takes in how an attempt to open the port `name` ended: on success the
    /// amplifier is connected under that name; the status line says what
    /// happened.
    pub fn connect_outcome(&mut self, name: &str, outcome: ConnectOutcome)
        ensures
            outcome != ConnectOutcome::Connected ==> *final(self) == (ToneApp {
                status_msg: final(self).status_msg,
                ..*old(self)
            }),
            outcome == ConnectOutcome::Connected ==> *final(self) == (ToneApp {
                connected: true,
                amp_name: final(self).amp_name,
                status_msg: final(self).status_msg,
                ..*old(self)
            }) && opt_text(final(self).amp_name) == Some(name@),
            final(self).status_msg@ == match outcome {
                ConnectOutcome::InitError => "MIDI init error."@,
                ConnectOutcome::PortNotFound => "Port '"@ + name@ + "' not found."@,
                ConnectOutcome::PortBusy => "MIDI port busy."@,
                ConnectOutcome::Connected => "Connected to "@ + name@ + "."@,
            },
    {
        match outcome {
            ConnectOutcome::InitError => {
                self.status_msg = "MIDI init error.".to_owned();
            },
            ConnectOutcome::PortNotFound => {
                self.status_msg = join("Port '", name).concat("' not found.");
            },
            ConnectOutcome::PortBusy => {
                self.status_msg = "MIDI port busy.".to_owned();
            },
            ConnectOutcome::Connected => {
                self.connected = true;
                self.amp_name = Some(name.to_owned());
                self.status_msg = join("Connected to ", name).concat(".");
            },
        }
    }

    /// The port to connect to automatically: the first Katana among
    /// `ports`. Where there is none, the status line asks the user to
    /// choose one.
    pub fn connect_katana(&mut self, ports: &Vec<String>) -> (r: Option<usize>)
        ensures
            r == katana_port_spec(ports@.map_values(|s: String| s@)),
            r is None ==> *final(self) == (ToneApp { status_msg: final(self).status_msg, ..*old(self) })
                && final(self).status_msg@ == "Katana not found — choose a port from the menu."@,
            r is Some ==> *final(self) == *old(self),
    {
        let r = katana_port(ports);
        proof {
            lemma_katana_port_spec(ports@.map_values(|s: String| s@), r);
        }
        if r.is_none() {
            self.status_msg = "Katana not found — choose a port from the menu.".to_owned();
        }
        r
    }

    /// Puts the blocks of a snapshot back into the editor; the caller
    /// then sends them all to the amplifier.
    pub fn load_snapshot(&mut self, s: Snapshot)
        ensures
            *final(self) == old(self).with_blocks(s),
    {
        self.amp = s.amp;
        self.booster = s.booster;
        self.mod_fx = s.mod_fx;
        self.fx = s.fx;
        self.delay = s.delay;
        self.reverb = s.reverb;
        self.ns = s.ns;
    }

    /// Puts the editor back to its initial blocks, with the status
    /// `Editor reset to defaults.`; says whether the blocks are to be sent
    /// (when connected).
    pub fn reset_defaults(&mut self) -> (resend: bool)
        ensures
            *final(self) == (ToneApp {
                status_msg: final(self).status_msg,
                ..old(self).with_blocks(initial_blocks())
            }),
            final(self).status_msg@ == "Editor reset to defaults."@,
            resend == old(self).connected,
    {
        self.amp = AmpState::default();
        self.booster = FxBlock::new(false, 0);
        self.mod_fx = FxBlock::new(false, 26);
        self.fx = FxBlock::new(false, 17);
        self.delay = DelayState::default();
        self.reverb = ReverbState::default();
        self.ns = NsState::default();
        self.status_msg = "Editor reset to defaults.".to_owned();
        self.connected
    }

    /// Chooses a palette; says whether it changed (then the theme is to be
    /// refreshed and the settings saved).
    pub fn choose_palette(&mut self, p: PaletteId) -> (changed: bool)
        ensures
            changed == (p != old(self).palette),
            *final(self) == (ToneApp {
                palette: p,
                pending_theme_refresh: old(self).pending_theme_refresh || changed,
                ..*old(self)
            }),
    {
        if p != self.palette {
            self.palette = p;
            self.pending_theme_refresh = true;
            true
        } else {
            false
        }
    }

    /// Selects the patch at `p`; says whether the selection changed (then
    /// its information is to be read again).
    pub fn select_patch(&mut self, p: String) -> (changed: bool)
        ensures
            *final(self) == (ToneApp { selected_patch: final(self).selected_patch, ..*old(self) }),
            opt_text(final(self).selected_patch) == Some(p@),
            changed == !(old(self).selected_patch matches Some(cur) && paths_equal(cur@, p@)),
    {
        let changed = match &self.selected_patch {
            Some(cur) => !same_path(cur.as_str(), p.as_str()),
            None => true,
        };
        self.selected_patch = Some(p);
        changed
    }

    /// Turns the tag filter `name` on, or off where it is on.
    pub fn toggle_filter(&mut self, name: &str)
        ensures
            *final(self) == (ToneApp { active_tag_filters: final(self).active_tag_filters, ..*old(self) }),
            names_view(final(self).active_tag_filters@) == filters_toggled(
                names_view(old(self).active_tag_filters@),
                name@,
            ),
    {
        let ghost f = names_view(self.active_tag_filters@);
        proof {
            f.index_of_first_ensures(name@);
        }
        match contains_name(&self.active_tag_filters, name) {
            Some(i) => {
                proof {
                    assert(f.contains(name@)) by {
                        assert(f[i as int] == name@);
                    }
                    let p = f.index_of_first(name@)->0;
                    assert(p == i) by {
                        if p < i {
                            assert(f[p] != name@);
                        }
                        if p > i {
                            assert(f[i as int] != name@);
                        }
                    }
                }
                self.active_tag_filters.remove(i);
                assert(names_view(self.active_tag_filters@) =~= f.remove(i as int));
            },
            None => {
                proof {
                    assert(!f.contains(name@)) by {
                        if f.contains(name@) {
                            let k = choose|k: int| 0 <= k < f.len() && f[k] == name@;
                            assert(f[k] != name@);
                        }
                    }
                }
                self.active_tag_filters.push(name.to_owned());
                assert(names_view(self.active_tag_filters@) =~= f.push(name@));
            },
        }
    }
}

impl ToneApp {
    /// Deletes the tag named `name` from the library (see
    /// `LibraryMeta::remove_tag`) and from the active filters.
    pub fn remove_tag(&mut self, name: &str)
        requires
            old(self).wf(),
        ensures
            final(self).wf(),
            *final(self) == (ToneApp {
                library_meta: final(self).library_meta,
                active_tag_filters: final(self).active_tag_filters,
                ..*old(self)
            }),
            final(self).library_meta.tag_list() == tags_without(old(self).library_meta.tag_list(), name@),
            final(self).library_meta.assignments@ == assignments_without(
                old(self).library_meta.assignments@,
                name@,
            ),
            names_view(final(self).active_tag_filters@) == without_name(
                names_view(old(self).active_tag_filters@),
                name@,
            ),
            !names_view(final(self).active_tag_filters@).contains(name@),
    {
        proof {
            crate::library::lemma_without_name_drops(names_view(self.active_tag_filters@), name@);
        }
        self.library_meta.remove_tag(name);
        let mut kept: Vec<String> = Vec::new();
        let n = self.active_tag_filters.len();
        let mut i: usize = 0;
        while i < n
            invariant
                n == self.active_tag_filters@.len(),
                i <= n,
                names_view(kept@) == without_name(
                    names_view(self.active_tag_filters@).take(i as int),
                    name@,
                ),
            decreases n - i,
        {
            proof {
                assert(names_view(self.active_tag_filters@).take(i + 1).drop_last()
                    =~= names_view(self.active_tag_filters@).take(i as int));
            }
            let ghost before = kept@;
            if !str_eq(self.active_tag_filters[i].as_str(), name) {
                kept.push(self.active_tag_filters[i].clone());
                assert(names_view(kept@) =~= names_view(before).push(
                    self.active_tag_filters@[i as int]@,
                ));
            }
            i = i + 1;
        }
        assert(names_view(self.active_tag_filters@).take(n as int) =~= names_view(
            self.active_tag_filters@,
        ));
        self.active_tag_filters = kept;
    }

    /// Adds the tag typed in the tag manager, with the chosen colour, where
    /// `can_add` allows it, and then clears the typed name; says whether
    /// it did.
    pub fn add_new_tag(&mut self) -> (added: bool)
        requires
            old(self).wf(),
        ensures
            final(self).wf(),
            *final(self) == (ToneApp {
                library_meta: final(self).library_meta,
                new_tag_name: final(self).new_tag_name,
                ..*old(self)
            }),
            added == can_add(old(self).library_meta.tag_list(), old(self).new_tag_name@),
            final(self).library_meta.tag_list() == if added {
                old(self).library_meta.tag_list().push(
                    (crate::text::trimmed(old(self).new_tag_name@), old(self).new_tag_color),
                )
            } else {
                old(self).library_meta.tag_list()
            },
            final(self).library_meta.assignments@ == old(self).library_meta.assignments@,
            final(self).new_tag_name@ == if added {
                Seq::<char>::empty()
            } else {
                old(self).new_tag_name@
            },
    {
        let added = self.library_meta.add_tag(self.new_tag_name.as_str(), self.new_tag_color);
        if added {
            self.new_tag_name = String::new();
        }
        added
    }

    /// The patches that the library page lists: those whose stem matches
    /// the search text and that carry every active tag filter, in order.
    pub fn filtered_patches(&self) -> (r: Vec<String>)
        requires
            self.wf(),
        ensures
            names_view(r@) == shown_patches(
                names_view(self.patches@),
                self.library_search@,
                self.library_meta.assignments@,
                opt_text(self.library_path),
                names_view(self.active_tag_filters@),
            ),
            self.library_search@.len() == 0 ==> forall|p: Seq<char>|
                #[trigger] name_matches(p, self.library_search@),
            self.library_search@.len() == 0 && self.active_tag_filters@.len() == 0 ==> names_view(r@)
                == names_view(self.patches@),
    {
        let q = to_lowercase(self.library_search.as_str());
        proof {
            lemma_shown_patches_listed(
                names_view(self.patches@),
                self.library_search@,
                self.library_meta.assignments@,
                opt_text(self.library_path),
                names_view(self.active_tag_filters@),
            );
        }
        let ghost all = names_view(self.patches@);
        let ghost m = self.library_meta.assignments@;
        let ghost lib = opt_text(self.library_path);
        let ghost active = names_view(self.active_tag_filters@);
        let mut out: Vec<String> = Vec::new();
        let n = self.patches.len();
        let mut i: usize = 0;
        while i < n
            invariant
                n == self.patches@.len(),
                i <= n,
                self.wf(),
                all == names_view(self.patches@),
                m == self.library_meta.assignments@,
                lib == opt_text(self.library_path),
                active == names_view(self.active_tag_filters@),
                q@ == lowercase(self.library_search@),
                names_view(out@) == shown_patches(all.take(i as int), self.library_search@, m, lib, active),
            decreases n - i,
        {
            proof {
                assert(all.take(i + 1).drop_last() =~= all.take(i as int));
                assert(all.take(i + 1).last() == self.patches@[i as int]@);
            }
            let p = &self.patches[i];
            let stem_low: Option<String> = if q.unicode_len() == 0 {
                None
            } else {
                match file_stem(p.as_str()) {
                    Some(stem) => Some(to_lowercase(stem.as_str())),
                    None => None,
                }
            };
            let name_ok = match &stem_low {
                Some(l) => stem_passes(Some(l.as_str()), q.as_str()),
                None => stem_passes(None, q.as_str()),
            };
            let tags_ok = if !name_ok {
                false
            } else {
                let rel = match self.rel_path(p.as_str()) {
                    Some(r) => r,
                    None => String::new(),
                };
                self.passes_tag_filters(rel.as_str())
            };
            let ghost before = out@;
            if name_ok && tags_ok {
                out.push(p.clone());
                assert(names_view(out@) =~= names_view(before).push(self.patches@[i as int]@));
            }
            i = i + 1;
        }
        assert(all.take(n as int) =~= all);
        out
    }

    /// Whether the patch `rel` passes the active tag filters: there are
    /// none, or it carries each of them.
    pub fn passes_tag_filters(&self, rel: &str) -> (r: bool)
        requires
            self.wf(),
        ensures
            r == (self.active_tag_filters@.len() == 0 || (self.library_meta.assignments@.contains_key(
                rel@,
            ) && forall|i: int|
                0 <= i < self.active_tag_filters@.len() ==> self.library_meta.assignments@[rel@].contains(
                    #[trigger] names_view(self.active_tag_filters@)[i],
                ))),
    {
        if self.active_tag_filters.len() == 0 {
            return true;
        }
        match self.library_meta.assignments.get(rel) {
            Some(tags) => self.carries_all_filters(tags),
            None => false,
        }
    }

    fn carries_all_filters(&self, tags: &Vec<String>) -> (r: bool)
        ensures
            r == forall|i: int|
                0 <= i < self.active_tag_filters@.len() ==> names_view(tags@).contains(
                    #[trigger] names_view(self.active_tag_filters@)[i],
                ),
    {
        let n = self.active_tag_filters.len();
        let mut i: usize = 0;
        while i < n
            invariant
                n == self.active_tag_filters@.len(),
                i <= n,
                forall|k: int|
                    0 <= k < i ==> names_view(tags@).contains(
                        #[trigger] names_view(self.active_tag_filters@)[k],
                    ),
            decreases n - i,
        {
            match contains_name(tags, self.active_tag_filters[i].as_str()) {
                Some(j) => {
                    assert(names_view(tags@)[j as int] == names_view(self.active_tag_filters@)[i as int]);
                },
                None => {
                    proof {
                        let x = names_view(self.active_tag_filters@)[i as int];
                        assert(!names_view(tags@).contains(x)) by {
                            if names_view(tags@).contains(x) {
                                let k = choose|k: int| 0 <= k < names_view(tags@).len() && names_view(tags@)[k] == x;
                                assert(tags@[k]@ != x);
                            }
                        }
                    }
                    return false;
                },
            }
            i = i + 1;
        }
        true
    }
}

/// The status line once a patch has been written: how many blocks went to
/// which channel.
pub open spec fn patch_loaded_status(count: nat, t: TargetChannel) -> Seq<char> {
    "Patch loaded ("@ + decimal(count) + " blocks to "@ + t.spec_short() + ")."@
}

/// The text of an optional string slice.
pub open spec fn opt_str(s: Option<&str>) -> Option<Seq<char>> {
    match s {
        Some(t) => Some(t@),
        None => None,
    }
}

/// The tags and assignments that a metadata file's text gives: those of
/// the parsed document, or the starter tags and no assignments where there
/// is no text or it is not JSON.
pub open spec fn loaded_meta(text: Option<Seq<char>>) -> (Seq<TagView>, Map<Seq<char>, Seq<Seq<char>>>) {
    match text {
        Some(t) => match json_parse_result(t) {
            Some(v) => (loaded_tags(v), loaded_assignments(v)),
            None => (default_tags(), Map::empty()),
        },
        None => (default_tags(), Map::empty()),
    }
}

/// Whether `p` is the same path (see `same_path`) as one of `patches`.
pub open spec fn listed(patches: Seq<Seq<char>>, p: Option<Seq<char>>) -> bool {
    p is Some && exists|k: int| 0 <= k < patches.len() && paths_equal(#[trigger] patches[k], p->0)
}

impl ToneApp {
    /// Writes the selected patch to the target channel. `file_text` is the
    /// selected patch file's text (`None` where it could not be read). The
    /// result is the messages to send, in order; the status line reports
    /// what happened: no connection or selection, an unreadable file, a
    /// text that is not JSON, or how many blocks were written.
    pub fn apply_patch(&mut self, file_text: Option<&str>) -> (msgs: Vec<Vec<u8>>)
        ensures
            *final(self) == (ToneApp { status_msg: final(self).status_msg, ..*old(self) }),
            if !old(self).connected || old(self).selected_patch is None {
                msgs@.len() == 0 && final(self).status_msg@ == "Connect the amp first."@
            } else {
                match file_text {
                    None => msgs@.len() == 0 && final(self).status_msg@ == "Cannot read file."@,
                    Some(text) => match json_parse_result(text@) {
                        None => msgs@.len() == 0 && final(self).status_msg@ == "Invalid TSL JSON."@,
                        Some(doc) => messages_view(msgs@) == patch_messages_of(
                            object_fields(param_set(doc)),
                            old(self).target.spec_msb(),
                        ) && final(self).status_msg@ == patch_loaded_status(
                            msgs@.len(),
                            old(self).target,
                        ),
                    },
                }
            },
    {
        if !self.connected || self.selected_patch.is_none() {
            self.status_msg = "Connect the amp first.".to_owned();
            return Vec::new();
        }
        let text = match file_text {
            Some(t) => t,
            None => {
                self.status_msg = "Cannot read file.".to_owned();
                return Vec::new();
            },
        };
        let doc = match parse_json(text) {
            Some(d) => d,
            None => {
                self.status_msg = "Invalid TSL JSON.".to_owned();
                return Vec::new();
            },
        };
        let msgs = patch_messages(&doc, self.target.msb());
        let count = decimal_string(msgs.len());
        let status = join("Patch loaded (", count.as_str()).concat(" blocks to ").concat(
            self.target.short(),
        ).concat(").");
        self.status_msg = status;
        msgs
    }

    /// What the library shows of a patch file, from the file's text and
    /// the stem of its name; `None` where the text is not JSON.
    pub fn parse_patch_info(text: &str, stem: Option<&str>) -> (r: Option<PatchInfo>)
        ensures
            match json_parse_result(text@) {
                None => r is None,
                Some(doc) => r is Some && r->0.name@ == display_name(doc, match stem {
                    Some(s) => Some(s@),
                    None => None,
                }) && r->0.memo@ == memo_of(doc) && r->0.block_count == block_count_of(doc),
            },
    {
        match parse_json(text) {
            Some(doc) => Some(PatchInfo::from_json(&doc, stem)),
            None => None,
        }
    }

    /// Takes in a rescan of the library folder: `found` are the patch files
    /// found in it and `meta_text` the text of its metadata file (`None`
    /// where there is none or it could not be read). Without a library
    /// folder the library is empty with the starter tags; else the patches
    /// are put in path order. The rest is as `set_library_contents`.
    pub fn refresh_library(&mut self, found: Vec<String>, meta_text: Option<&str>)
        requires
            old(self).wf(),
        ensures
            final(self).wf(),
            *final(self) == (ToneApp {
                patches: final(self).patches,
                library_meta: final(self).library_meta,
                selected_patch: final(self).selected_patch,
                selected_patch_info: final(self).selected_patch_info,
                active_tag_filters: final(self).active_tag_filters,
                ..*old(self)
            }),
            old(self).library_path is None ==> final(self).patches@.len() == 0
                && final(self).library_meta.tag_list() == loaded_meta(None).0
                && final(self).library_meta.assignments@ == loaded_meta(None).1,
            old(self).library_path is Some ==> names_view(final(self).patches@) == paths_in_order(
                names_view(found@),
            ) && names_view(final(self).patches@).to_multiset() == names_view(found@).to_multiset()
                && final(self).library_meta.tag_list() == loaded_meta(opt_str(meta_text)).0
                && final(self).library_meta.assignments@ == loaded_meta(opt_str(meta_text)).1,
            if listed(names_view(final(self).patches@), opt_text(old(self).selected_patch)) {
                final(self).selected_patch == old(self).selected_patch
                    && final(self).selected_patch_info == old(self).selected_patch_info
            } else {
                final(self).selected_patch is None && final(self).selected_patch_info is None
            },
            names_view(final(self).active_tag_filters@) == known_filters(
                names_view(old(self).active_tag_filters@),
                final(self).library_meta.tag_list(),
            ),
    {
        if self.library_path.is_some() {
            let sorted = sort_paths(found);
            self.set_library_contents(sorted, meta_text);
        } else {
            self.set_library_contents(Vec::new(), None);
        }
    }

    /// Sets the library's patches and its metadata, read from `meta_text`
    /// (the starter tags and no assignments where it is `None` or not
    /// JSON). A selection that is no longer listed is dropped with its
    /// information; filters that name no tag are dropped.
    pub fn set_library_contents(&mut self, patches: Vec<String>, meta_text: Option<&str>)
        requires
            old(self).wf(),
        ensures
            final(self).wf(),
            *final(self) == (ToneApp {
                patches: final(self).patches,
                library_meta: final(self).library_meta,
                selected_patch: final(self).selected_patch,
                selected_patch_info: final(self).selected_patch_info,
                active_tag_filters: final(self).active_tag_filters,
                ..*old(self)
            }),
            final(self).patches@ == patches@,
            final(self).library_meta.tag_list() == loaded_meta(opt_str(meta_text)).0,
            final(self).library_meta.assignments@ == loaded_meta(opt_str(meta_text)).1,
            if listed(names_view(patches@), opt_text(old(self).selected_patch)) {
                final(self).selected_patch == old(self).selected_patch
                    && final(self).selected_patch_info == old(self).selected_patch_info
            } else {
                final(self).selected_patch is None && final(self).selected_patch_info is None
            },
            names_view(final(self).active_tag_filters@) == known_filters(
                names_view(old(self).active_tag_filters@),
                final(self).library_meta.tag_list(),
            ),
    {
        self.patches = patches;
        self.library_meta = match meta_text {
            Some(t) => LibraryMeta::parse(t),
            None => LibraryMeta::default(),
        };
        let still_listed = match &self.selected_patch {
            Some(sel) => find_path(&self.patches, sel.as_str()).is_some(),
            None => false,
        };
        proof {
            let ps = names_view(self.patches@);
            if let Some(sel) = &self.selected_patch {
                if exists|k: int| 0 <= k < ps.len() && paths_equal(ps[k], sel@) {
                    let k = choose|k: int| 0 <= k < ps.len() && paths_equal(ps[k], sel@);
                    assert(paths_equal(self.patches@[k]@, sel@));
                }
                if still_listed {
                    let k = choose|k: int| 0 <= k < self.patches@.len() && paths_equal(self.patches@[k]@, sel@);
                    assert(ps[k] == self.patches@[k]@);
                }
            }
        }
        if !still_listed {
            self.selected_patch = None;
            self.selected_patch_info = None;
        }
        let ghost tags = self.library_meta.tag_list();
        let mut kept: Vec<String> = Vec::new();
        let n = self.active_tag_filters.len();
        let mut i: usize = 0;
        while i < n
            invariant
                n == self.active_tag_filters@.len(),
                i <= n,
                tags == self.library_meta.tag_list(),
                names_view(kept@) == known_filters(
                    names_view(self.active_tag_filters@).take(i as int),
                    tags,
                ),
            decreases n - i,
        {
            proof {
                assert(names_view(self.active_tag_filters@).take(i + 1).drop_last()
                    =~= names_view(self.active_tag_filters@).take(i as int));
            }
            let ghost before = kept@;
            let known = self.library_meta.tag_by_name(self.active_tag_filters[i].as_str()).is_some();
            proof {
                let f = self.active_tag_filters@[i as int]@;
                lemma_tag_named_some(tags, f);
            }
            if known {
                kept.push(self.active_tag_filters[i].clone());
                assert(names_view(kept@) =~= names_view(before).push(self.active_tag_filters@[i as int]@));
            }
            i = i + 1;
        }
        assert(names_view(self.active_tag_filters@).take(n as int) =~= names_view(
            self.active_tag_filters@,
        ));
        self.active_tag_filters = kept;
    }
}

proof fn lemma_tag_named_some(tags: Seq<TagView>, name: Seq<char>)
    ensures
        (crate::library::tag_named(tags, name) is Some) <==> (exists|i: int|
            0 <= i < tags.len() && #[trigger] tags[i].0 == name),
    decreases tags.len(),
{
    if tags.len() > 0 {
        lemma_tag_named_some(tags.drop_first(), name);
        if exists|i: int| 0 <= i < tags.len() && #[trigger] tags[i].0 == name {
            let i = choose|i: int| 0 <= i < tags.len() && #[trigger] tags[i].0 == name;
            if i > 0 {
                assert(tags.drop_first()[i - 1].0 == name);
            }
        }
        if exists|i: int| 0 <= i < tags.drop_first().len() && #[trigger] tags.drop_first()[i].0 == name {
            let i = choose|i: int| 0 <= i < tags.drop_first().len() && #[trigger] tags.drop_first()[i].0 == name;
            assert(tags[i + 1].0 == name);
        }
    }
}

impl ToneApp {
    /// Every parameter write of a full resend of the editor's blocks, in
    /// order; `codes` are the amplifier's effect type codes. Each write is
    /// sent with `send_param`.
    pub fn resend_all(&self, codes: &TypeCodes) -> (w: Vec<(Param, u8)>)
        ensures
            w@ == resend_writes(self.blocks(), *codes),
    {
        let b = self.make_snapshot();
        resend_writes_of(&b, codes)
    }

    /// The text of an exported patch file of the editor's blocks: the
    /// exported document (see `describes_state`), pretty-printed; `names`
    /// are the names of the effect types.
    pub fn save_state_as_tsl(&self, names: &TypeNames) -> (s: String)
        ensures
            exists|j: JsonValue| describes_state(j, self.blocks(), *names) && s@ == json_pretty_text(j),
    {
        let b = self.make_snapshot();
        let j = state_document(&b, names);
        to_pretty_string(&j)
    }
}

/// One of the two A/B comparison slots.
#[derive(PartialEq, Eq, Structural, Clone, Copy, Debug)]
pub enum Slot {
    A,
    B,
}

impl ToneApp {
    /// The state at start-up with the stored settings `cfg`: their palette,
    /// and their library folder, or `fallback_dir` where they name none.
    /// The caller then rescans the library and the MIDI ports.
    pub fn new(cfg: AppConfig, fallback_dir: Option<String>) -> (a: ToneApp)
        ensures
            a.wf(),
            a.at_start_up(),
            a.palette == cfg.palette,
            opt_text(a.library_path) == if cfg.library_path is Some {
                opt_text(cfg.library_path)
            } else {
                opt_text(fallback_dir)
            },
    {
        let mut app = ToneApp::default();
        app.palette = cfg.palette;
        app.library_path = match cfg.library_path {
            Some(p) => Some(p),
            None => fallback_dir,
        };
        app
    }

    /// Stores the editor's blocks in a slot, and says so.
    pub fn save_snapshot(&mut self, slot: Slot)
        ensures
            *final(self) == (ToneApp {
                snap_a: final(self).snap_a,
                snap_b: final(self).snap_b,
                status_msg: final(self).status_msg,
                ..*old(self)
            }),
            slot == Slot::A ==> final(self).snap_a == Some(old(self).blocks()) && final(self).snap_b
                == old(self).snap_b && final(self).status_msg@ == "Snapshot A saved."@,
            slot == Slot::B ==> final(self).snap_b == Some(old(self).blocks()) && final(self).snap_a
                == old(self).snap_a && final(self).status_msg@ == "Snapshot B saved."@,
    {
        let s = self.make_snapshot();
        match slot {
            Slot::A => {
                self.snap_a = Some(s);
                self.status_msg = "Snapshot A saved.".to_owned();
            },
            Slot::B => {
                self.snap_b = Some(s);
                self.status_msg = "Snapshot B saved.".to_owned();
            },
        }
    }

    /// Puts the blocks stored in a slot back into the editor, and says so;
    /// says whether the slot held any (then the blocks are to be resent).
    pub fn recall_snapshot(&mut self, slot: Slot) -> (recalled: bool)
        ensures
            ({
                let stored = if slot == Slot::A {
                    old(self).snap_a
                } else {
                    old(self).snap_b
                };
                match stored {
                    Some(s) => recalled && *final(self) == (ToneApp {
                        status_msg: final(self).status_msg,
                        ..old(self).with_blocks(s)
                    }) && final(self).status_msg@ == (if slot == Slot::A {
                        "Recalled A."@
                    } else {
                        "Recalled B."@
                    }),
                    None => !recalled && *final(self) == *old(self),
                }
            }),
    {
        let stored = match slot {
            Slot::A => self.snap_a,
            Slot::B => self.snap_b,
        };
        match stored {
            Some(s) => {
                self.load_snapshot(s);
                self.status_msg = match slot {
                    Slot::A => "Recalled A.".to_owned(),
                    Slot::B => "Recalled B.".to_owned(),
                };
                true
            },
            None => false,
        }
    }
}

/// The name shown for the patch `rel` in the tag popup: the stem of the
/// first listed patch whose relative path is `rel`, else `rel` itself.
pub open spec fn popup_name(patches: Seq<Seq<char>>, lib: Option<Seq<char>>, rel: Seq<char>) -> Seq<char>
    decreases patches.len(),
{
    if patches.len() == 0 {
        rel
    } else if rel_of(lib, patches[0]) == Some(rel) {
        match path_file_stem(patches[0]) {
            Some(s) => s,
            None => rel,
        }
    } else {
        popup_name(patches.drop_first(), lib, rel)
    }
}

impl ToneApp {
    /// The name the tag popup shows for the patch `rel` (see `popup_name`).
    pub fn popup_patch_name(&self, rel: &str) -> (name: String)
        ensures
            name@ == popup_name(names_view(self.patches@), opt_text(self.library_path), rel@),
    {
        let ghost all = names_view(self.patches@);
        let ghost lib = opt_text(self.library_path);
        let n = self.patches.len();
        let mut i: usize = 0;
        assert(all.skip(0) =~= all);
        while i < n
            invariant
                n == self.patches@.len(),
                i <= n,
                all == names_view(self.patches@),
                lib == opt_text(self.library_path),
                popup_name(all, lib, rel@) == popup_name(all.skip(i as int), lib, rel@),
            decreases n - i,
        {
            proof {
                assert(all.skip(i as int)[0] == self.patches@[i as int]@);
                assert(all.skip(i as int).drop_first() =~= all.skip(i + 1));
            }
            let p = &self.patches[i];
            match self.rel_path(p.as_str()) {
                Some(r) => {
                    if str_eq(r.as_str(), rel) {
                        return match file_stem(p.as_str()) {
                            Some(stem) => stem,
                            None => rel.to_owned(),
                        };
                    }
                },
                None => {},
            }
            i = i + 1;
        }
        assert(all.skip(n as int) =~= Seq::<Seq<char>>::empty());
        rel.to_owned()
    }
}

/// The library page lists exactly the library's patches that match the
/// search and carry every active tag filter: each listed patch is one of
/// them and matches, and each of them that matches is listed. With no
/// search text and no tag filter every patch is listed.
pub proof fn lemma_shown_patches_listed(
    patches: Seq<Seq<char>>,
    search: Seq<char>,
    m: Map<Seq<char>, Seq<Seq<char>>>,
    lib: Option<Seq<char>>,
    active: Seq<Seq<char>>,
)
    ensures
        forall|i: int| 0 <= i < shown_patches(patches, search, m, lib, active).len()
            ==> patches.contains(#[trigger] shown_patches(patches, search, m, lib, active)[i])
            && name_matches(shown_patches(patches, search, m, lib, active)[i], search)
            && tags_match(m, lib, shown_patches(patches, search, m, lib, active)[i], active),
        forall|i: int| 0 <= i < patches.len() && name_matches(#[trigger] patches[i], search)
            && tags_match(m, lib, patches[i], active)
            ==> shown_patches(patches, search, m, lib, active).contains(patches[i]),
        shown_patches(patches, search, m, lib, active).len() <= patches.len(),
        lowercase(search).len() == 0 && active.len() == 0 ==> shown_patches(patches, search, m, lib, active) == patches,
    decreases patches.len(),
{
    if patches.len() > 0 {
        let d = patches.drop_last();
        lemma_shown_patches_listed(d, search, m, lib, active);
        let front = shown_patches(d, search, m, lib, active);
        let all = shown_patches(patches, search, m, lib, active);
        let last = patches.last();
        assert forall|i: int| 0 <= i < all.len() implies patches.contains(#[trigger] all[i])
            && name_matches(all[i], search) && tags_match(m, lib, all[i], active) by {
            if i < front.len() {
                assert(all[i] == front[i]);
                assert(d.contains(front[i]));
                let k = choose|k: int| 0 <= k < d.len() && d[k] == front[i];
                assert(patches[k] == front[i]);
            } else {
                assert(patches[patches.len() - 1] == last);
            }
        }
        assert forall|i: int| 0 <= i < patches.len() && name_matches(#[trigger] patches[i], search)
            && tags_match(m, lib, patches[i], active) implies all.contains(patches[i]) by {
            if i < d.len() {
                assert(d[i] == patches[i]);
                assert(front.contains(patches[i]));
                let k = choose|k: int| 0 <= k < front.len() && front[k] == patches[i];
                assert(all[k] == patches[i]);
            } else {
                assert(patches[i] == last);
                assert(all[all.len() - 1] == last);
            }
        }
        if lowercase(search).len() == 0 && active.len() == 0 {
            assert(d.push(patches.last()) =~= patches);
        }
    }
}

/// Whether the lower case of the file stem of `p` holds the lower case of
/// `search` at some position (always, for an empty search).
pub open spec fn stem_holds_search(p: Seq<char>, search: Seq<char>) -> bool {
    let q = lowercase(search);
    q.len() == 0 || (path_file_stem(p) is Some && exists|k: int|
        0 <= k && k + q.len() <= lowercase(path_file_stem(p)->0).len()
            && #[trigger] lowercase(path_file_stem(p)->0).subrange(k, k + q.len()) == q)
}

/// The search is a case-insensitive substring search on the file stem: a
/// patch of the library is listed exactly when its lower-cased stem holds
/// the lower-cased search text at any position (every patch for an empty
/// search) and it carries every active tag filter.
pub proof fn lemma_search_matches_substrings(
    patches: Seq<Seq<char>>,
    search: Seq<char>,
    m: Map<Seq<char>, Seq<Seq<char>>>,
    lib: Option<Seq<char>>,
    active: Seq<Seq<char>>,
)
    ensures
        forall|i: int| 0 <= i < patches.len() ==> (shown_patches(patches, search, m, lib, active).contains(
            #[trigger] patches[i],
        ) <==> (stem_holds_search(patches[i], search) && tags_match(m, lib, patches[i], active))),
        forall|p: Seq<char>| #[trigger] name_matches(p, search) == stem_holds_search(p, search),
        forall|p: Seq<char>| #[trigger] tags_match(m, lib, p, active) == (active.len() == 0 || ({
            let rel = match lib {
                Some(base) => match path_strip_prefix(p, base) {
                    Some(r) => forward_slashes(r),
                    None => Seq::empty(),
                },
                None => Seq::empty(),
            };
            m.contains_key(rel) && forall|i: int| 0 <= i < active.len() ==> m[rel].contains(#[trigger] active[i])
        })),
{
    lemma_shown_patches_listed(patches, search, m, lib, active);
    let shown = shown_patches(patches, search, m, lib, active);
    assert forall|p: Seq<char>| #[trigger] name_matches(p, search) == stem_holds_search(p, search) by {
    }
    assert forall|i: int| 0 <= i < patches.len() implies (shown.contains(#[trigger] patches[i]) <==> (
    stem_holds_search(patches[i], search) && tags_match(m, lib, patches[i], active))) by {
        if shown.contains(patches[i]) {
            let j = choose|j: int| 0 <= j < shown.len() && shown[j] == patches[i];
            assert(name_matches(shown[j], search) && tags_match(m, lib, shown[j], active));
        }
        assert(name_matches(patches[i], search) == stem_holds_search(patches[i], search));
    }
}

/// After a rescan every active filter names a tag of the library.
pub proof fn lemma_known_filters_name_tags(f: Seq<Seq<char>>, tags: Seq<TagView>)
    ensures
        forall|i: int| 0 <= i < known_filters(f, tags).len() ==> is_tag_name(
            tags,
            #[trigger] known_filters(f, tags)[i],
        ),
        known_filters(f, tags).len() <= f.len(),
    decreases f.len(),
{
    if f.len() > 0 {
        lemma_known_filters_name_tags(f.drop_last(), tags);
        let front = known_filters(f.drop_last(), tags);
        assert forall|i: int| 0 <= i < known_filters(f, tags).len() implies is_tag_name(
            tags,
            #[trigger] known_filters(f, tags)[i],
        ) by {
            if i < front.len() {
                assert(known_filters(f, tags)[i] == front[i]);
            }
        }
    }
}

/// The first Katana port among `names`.
pub open spec fn katana_port_spec(names: Seq<Seq<char>>) -> Option<usize> {
    if exists|i: int| 0 <= i < names.len() && is_katana_port(names[i]) {
        Some(
            (choose|i: int|
                0 <= i < names.len() && is_katana_port(names[i]) && forall|k: int|
                    0 <= k < i ==> !is_katana_port(#[trigger] names[k])) as usize,
        )
    } else {
        None
    }
}

proof fn lemma_katana_port_spec(names: Seq<Seq<char>>, r: Option<usize>)
    requires
        match r {
            Some(i) => i < names.len() && is_katana_port(names[i as int]) && forall|k: int|
                0 <= k < i ==> !is_katana_port(#[trigger] names[k]),
            None => forall|k: int| 0 <= k < names.len() ==> !is_katana_port(#[trigger] names[k]),
        },
    ensures
        r == katana_port_spec(names),
{
    match r {
        Some(i) => {
            let w = choose|j: int|
                0 <= j < names.len() && is_katana_port(names[j]) && forall|k: int|
                    0 <= k < j ==> !is_katana_port(#[trigger] names[k]);
            assert(0 <= i < names.len() && is_katana_port(names[i as int]));
            assert(w == i) by {
                if w < i {
                    assert(!is_katana_port(names[w]));
                }
                if w > i {
                    assert(!is_katana_port(names[i as int]));
                }
            }
        },
        None => {},
    }
}

} // verus!
