//! The services this device shares, as the settings forms edit them: the
//! list of shared resources with saving and deleting, the small JSON
//! settings of the network gateway and the remote desktop, and the
//! remote desktop's diagnostics of its screen-capture requirements.
use vstd::prelude::*;
use crate::i18n::{Catalog, CatalogView, translate, interpolate, args_view};
use crate::text::{str_eq, chars_of, trim, trim_chars, is_white};
use crate::workspace::opt_text;

verus! {

/// The kinds of shared resource.
#[derive(Clone, Copy, Debug, PartialEq, Eq, Structural)]
pub enum ResourceType {
    SharedNetwork,
    RemoteDesktop,
    /// Any other kind of shared resource.
    Other,
}

/// A resource this device shares.
pub struct SharedResource {
    pub id: String,
    pub name: String,
    pub resource_type: ResourceType,
    pub config: Option<String>,
    pub is_active: bool,
    pub session_token: Option<String>,
}

/// A shared resource as values.
pub struct ResourceView {
    pub id: Seq<char>,
    pub name: Seq<char>,
    pub resource_type: ResourceType,
    pub config: Option<Seq<char>>,
    pub is_active: bool,
    pub session_token: Option<Seq<char>>,
}

impl View for SharedResource {
    type V = ResourceView;

    open spec fn view(&self) -> ResourceView {
        ResourceView { id: self.id@, name: self.name@, resource_type: self.resource_type,
            config: opt_text(self.config), is_active: self.is_active, session_token: opt_text(self.session_token) }
    }
}

/// The views of a list of resources.
pub open spec fn resources_view(rs: Seq<SharedResource>) -> Seq<ResourceView> {
    rs.map_values(|r: SharedResource| r@)
}

/// What a settings form holds when it is saved.
pub struct ResourceForm {
    /// The id of the resource being edited; none for a new one.
    pub existing_id: Option<String>,
    pub resource_type: ResourceType,
    /// The name typed in.
    pub name: String,
    /// The name used when the typed one is blank.
    pub default_name: String,
    pub config: Option<String>,
    pub is_active: bool,
}

/// The name saved: the typed one, or the default when it is blank.
pub open spec fn saved_name(typed: Seq<char>, default: Seq<char>) -> Seq<char> {
    if trim(typed).len() == 0 { default } else { typed }
}

/// The position of the first resource with this id.
pub open spec fn find_resource(rs: Seq<ResourceView>, id: Seq<char>) -> Option<int>
    decreases rs.len(),
{
    if rs.len() == 0 {
        None
    } else {
        match find_resource(rs.drop_last(), id) {
            Some(j) => Some(j),
            None => if rs.last().id == id { Some(rs.len() - 1) } else { None },
        }
    }
}

/// The resources that are not of a kind.
pub open spec fn drop_kind(rs: Seq<ResourceView>, kind: ResourceType) -> Seq<ResourceView>
    decreases rs.len(),
{
    if rs.len() == 0 {
        rs
    } else {
        let prev = drop_kind(rs.drop_last(), kind);
        if rs.last().resource_type != kind { prev.push(rs.last()) } else { prev }
    }
}

/// The resources without this id.
pub open spec fn drop_resource(rs: Seq<ResourceView>, id: Seq<char>) -> Seq<ResourceView>
    decreases rs.len(),
{
    if rs.len() == 0 {
        rs
    } else {
        let prev = drop_resource(rs.drop_last(), id);
        if rs.last().id != id { prev.push(rs.last()) } else { prev }
    }
}

/// The list after saving a form: an edited resource takes the form's name,
/// settings and switch; a new one replaces every resource of its kind and
/// comes last, under a fresh id.
pub open spec fn save_spec(rs: Seq<ResourceView>, existing: Option<Seq<char>>, kind: ResourceType,
    name: Seq<char>, config: Option<Seq<char>>, active: bool, new_id: Seq<char>) -> Seq<ResourceView>
{
    match existing {
        Some(id) => match find_resource(rs, id) {
            Some(j) => rs.update(j, ResourceView { name: name, config: config, is_active: active, ..rs[j] }),
            None => rs,
        },
        None => drop_kind(rs, kind).push(ResourceView { id: new_id, name: name, resource_type: kind,
            config: config, is_active: active, session_token: None }),
    }
}

/// The text of a UUID in hyphenated lower case, version 4.
pub open spec fn uuid_text(s: Seq<char>) -> bool {
    &&& s.len() == 36
    &&& s[8] == '-' && s[13] == '-' && s[18] == '-' && s[23] == '-'
    &&& s[14] == '4'
    &&& s[19] == '8' || s[19] == '9' || s[19] == 'a' || s[19] == 'b'
    &&& forall|i: int| 0 <= i < 36 && i != 8 && i != 13 && i != 18 && i != 23 ==>
        (('0' <= #[trigger] s[i] && s[i] <= '9') || ('a' <= s[i] && s[i] <= 'f'))
}

/// A fresh random id: `uuid::Uuid::new_v4()` as text. The crate formats
/// it hyphenated in lower case, with the version digit 4 and the variant
/// bits 10; the other digits are random.
#[verifier::external_body]
fn fresh_resource_id() -> (res: String)
    ensures
        uuid_text(res@),
{
    uuid::Uuid::new_v4().to_string()
}

fn find_resource_exec(rs: &Vec<SharedResource>, id: &str) -> (res: Option<usize>)
    ensures
        find_resource(resources_view(rs@), id@) == (match res { Some(i) => Some(i as int), None => None::<int> }),
        res matches Some(i) ==> i < rs@.len(),
{
    let ghost v = resources_view(rs@);
    proof { lemma_find_resource(v, id@); }
    let mut k: usize = 0;
    while k < rs.len()
        invariant
            k <= rs@.len(),
            v == resources_view(rs@),
            forall|j: int| 0 <= j < k ==> v[j].id != id@,
            match find_resource(v, id@) {
                Some(j) => 0 <= j < v.len() && v[j].id == id@ && forall|m: int| 0 <= m < j ==> v[m].id != id@,
                None => forall|m: int| 0 <= m < v.len() ==> v[m].id != id@,
            },
        decreases rs.len() - k,
    {
        if str_eq(rs[k].id.as_str(), id) {
            assert(v[k as int].id == id@);
            return Some(k);
        }
        k += 1;
    }
    None
}

proof fn lemma_find_resource(rs: Seq<ResourceView>, id: Seq<char>)
    ensures
        match find_resource(rs, id) {
            Some(j) => 0 <= j < rs.len() && rs[j].id == id && forall|k: int| 0 <= k < j ==> rs[k].id != id,
            None => forall|k: int| 0 <= k < rs.len() ==> rs[k].id != id,
        },
    decreases rs.len(),
{
    if rs.len() > 0 {
        lemma_find_resource(rs.drop_last(), id);
        assert forall|k: int| 0 <= k < rs.len() - 1 implies rs[k] == rs.drop_last()[k] by {}
    }
}

fn opt_clone(o: &Option<String>) -> (res: Option<String>)
    ensures
        opt_text(res) == opt_text(*o),
{
    match o {
        Some(s) => Some(s.clone()),
        None => None,
    }
}

fn copy_resource(r: &SharedResource) -> (res: SharedResource)
    ensures
        res@ == r@,
{
    SharedResource { id: r.id.clone(), name: r.name.clone(), resource_type: r.resource_type,
        config: opt_clone(&r.config), is_active: r.is_active, session_token: opt_clone(&r.session_token) }
}

/// The name a form saves.
pub fn form_name(typed: &str, default: &str) -> (res: String)
    ensures
        res@ == saved_name(typed@, default@),
{
    let t = chars_of(typed);
    let trimmed = trim_chars(t.as_slice());
    if trimmed.len() == 0 { default.to_owned() } else { typed.to_owned() }
}

/// Saves a form into the list of resources, a new resource under `new_id`.
pub fn save_with_id(rs: &Vec<SharedResource>, form: &ResourceForm, new_id: String) -> (res: Vec<SharedResource>)
    ensures
        resources_view(res@) == save_spec(resources_view(rs@), opt_text(form.existing_id), form.resource_type,
            saved_name(form.name@, form.default_name@), opt_text(form.config), form.is_active, new_id@),
{
    let ghost v = resources_view(rs@);
    let name = form_name(form.name.as_str(), form.default_name.as_str());
    match &form.existing_id {
        Some(id) => {
            let mut out: Vec<SharedResource> = Vec::new();
            let mut i: usize = 0;
            while i < rs.len()
                invariant
                    i <= rs@.len(),
                    v == resources_view(rs@),
                    resources_view(out@) == v.take(i as int),
                decreases rs.len() - i,
            {
                let c = copy_resource(&rs[i]);
                assert(c@ == v[i as int]);
                let ghost before = resources_view(out@);
                out.push(c);
                assert(resources_view(out@) =~= before.push(c@));
                assert(v.take(i + 1) =~= v.take(i as int).push(v[i as int]));
                i += 1;
            }
            assert(v.take(rs@.len() as int) =~= v);
            match find_resource_exec(rs, id.as_str()) {
                Some(j) => {
                    let old_r = copy_resource(&rs[j]);
                    let updated = SharedResource { name, config: opt_clone(&form.config), is_active: form.is_active, ..old_r };
                    out.set(j, updated);
                    assert(resources_view(out@) =~= v.update(j as int, ResourceView {
                        name: saved_name(form.name@, form.default_name@), config: opt_text(form.config),
                        is_active: form.is_active, ..v[j as int] }));
                },
                None => {},
            }
            out
        },
        None => {
            let mut out: Vec<SharedResource> = Vec::new();
            let mut i: usize = 0;
            while i < rs.len()
                invariant
                    i <= rs@.len(),
                    v == resources_view(rs@),
                    resources_view(out@) == drop_kind(v.take(i as int), form.resource_type),
                decreases rs.len() - i,
            {
                assert(v.take(i + 1).drop_last() =~= v.take(i as int));
                if rs[i].resource_type != form.resource_type {
                    out.push(copy_resource(&rs[i]));
                    assert(resources_view(out@) =~= drop_kind(v.take(i as int), form.resource_type).push(v[i as int]));
                }
                i += 1;
            }
            assert(v.take(rs@.len() as int) =~= v);
            let fresh = SharedResource { id: new_id, name, resource_type: form.resource_type,
                config: opt_clone(&form.config), is_active: form.is_active, session_token: None };
            let ghost before = resources_view(out@);
            out.push(fresh);
            assert(resources_view(out@) =~= before.push(fresh@));
            out
        },
    }
}

/// Saves a form into the list of resources; a new resource gets a fresh
/// random id. What is saved is `save_spec` of the list with that id.
pub fn save_resource(rs: &Vec<SharedResource>, form: &ResourceForm) -> (res: Vec<SharedResource>)
    ensures
        form.existing_id is None ==> exists|id: Seq<char>| uuid_text(id) && resources_view(res@) == save_spec(
            resources_view(rs@), None, form.resource_type, saved_name(form.name@, form.default_name@),
            opt_text(form.config), form.is_active, id),
        form.existing_id is Some ==> resources_view(res@) == save_spec(resources_view(rs@),
            opt_text(form.existing_id), form.resource_type, saved_name(form.name@, form.default_name@),
            opt_text(form.config), form.is_active, Seq::<char>::empty()),
{
    match &form.existing_id {
        Some(_) => save_with_id(rs, form, String::new()),
        None => {
            let id = fresh_resource_id();
            let ghost idv = id@;
            let r = save_with_id(rs, form, id);
            assert(uuid_text(idv) && resources_view(r@) == save_spec(resources_view(rs@), None, form.resource_type,
                saved_name(form.name@, form.default_name@), opt_text(form.config), form.is_active, idv));
            r
        },
    }
}

/// Deletes the resources with an id.
pub fn delete_resource(rs: &Vec<SharedResource>, id: &str) -> (res: Vec<SharedResource>)
    ensures
        resources_view(res@) == drop_resource(resources_view(rs@), id@),
{
    let ghost v = resources_view(rs@);
    let mut out: Vec<SharedResource> = Vec::new();
    let mut i: usize = 0;
    while i < rs.len()
        invariant
            i <= rs@.len(),
            v == resources_view(rs@),
            resources_view(out@) == drop_resource(v.take(i as int), id@),
        decreases rs.len() - i,
    {
        assert(v.take(i + 1).drop_last() =~= v.take(i as int));
        if !str_eq(rs[i].id.as_str(), id) {
            out.push(copy_resource(&rs[i]));
            assert(resources_view(out@) =~= drop_resource(v.take(i as int), id@).push(v[i as int]));
        }
        i += 1;
    }
    assert(v.take(rs@.len() as int) =~= v);
    out
}

/// How many resources are of a kind.
pub open spec fn kind_count(rs: Seq<ResourceView>, kind: ResourceType) -> nat
    decreases rs.len(),
{
    if rs.len() == 0 { 0 } else {
        kind_count(rs.drop_last(), kind) + if rs.last().resource_type == kind { 1nat } else { 0nat }
    }
}

proof fn lemma_drop_kind_count(rs: Seq<ResourceView>, kind: ResourceType)
    ensures
        kind_count(drop_kind(rs, kind), kind) == 0,
    decreases rs.len(),
{
    if rs.len() > 0 {
        lemma_drop_kind_count(rs.drop_last(), kind);
        let prev = drop_kind(rs.drop_last(), kind);
        if rs.last().resource_type != kind {
            assert(prev.push(rs.last()).drop_last() =~= prev);
        }
    }
}

/// Saving a new resource leaves exactly one resource of its kind: the new
/// one, last in the list.
pub proof fn lemma_new_resource_replaces_kind(rs: Seq<ResourceView>, kind: ResourceType, name: Seq<char>,
    config: Option<Seq<char>>, active: bool, new_id: Seq<char>)
    ensures
        ({
            let after = save_spec(rs, None, kind, name, config, active, new_id);
            &&& kind_count(after, kind) == 1
            &&& after.last().id == new_id
            &&& after.last().resource_type == kind
        }),
{
    lemma_drop_kind_count(rs, kind);
    let d = drop_kind(rs, kind);
    let after = save_spec(rs, None, kind, name, config, active, new_id);
    assert(after.drop_last() =~= d);
}

proof fn lemma_drop_resource_absent(rs: Seq<ResourceView>, id: Seq<char>)
    ensures
        forall|i: int| 0 <= i < drop_resource(rs, id).len() ==> #[trigger] drop_resource(rs, id)[i].id != id,
    decreases rs.len(),
{
    if rs.len() > 0 {
        lemma_drop_resource_absent(rs.drop_last(), id);
    }
}

/// After deleting, no resource has the deleted id.
pub proof fn lemma_deleted_resource_gone(rs: Seq<ResourceView>, id: Seq<char>)
    ensures
        find_resource(drop_resource(rs, id), id) is None,
{
    lemma_drop_resource_absent(rs, id);
    lemma_find_resource(drop_resource(rs, id), id);
}

/// Editing a resource changes the list's length and order of ids in no way.
pub proof fn lemma_edit_keeps_ids(rs: Seq<ResourceView>, id: Seq<char>, kind: ResourceType, name: Seq<char>,
    config: Option<Seq<char>>, active: bool, new_id: Seq<char>)
    ensures
        ({
            let after = save_spec(rs, Some(id), kind, name, config, active, new_id);
            &&& after.len() == rs.len()
            &&& forall|i: int| 0 <= i < rs.len() ==> #[trigger] after[i].id == rs[i].id
        }),
{
    lemma_find_resource(rs, id);
}

/// Saving an edited resource stores what the form holds: the first
/// resource with the edited id takes the form's name, settings and switch,
/// keeps its id, kind and session token, and every other resource stays as
/// it was. An id that names no resource leaves the list unchanged.
pub proof fn lemma_edit_stores_form(rs: Seq<ResourceView>, id: Seq<char>, kind: ResourceType, name: Seq<char>,
    config: Option<Seq<char>>, active: bool, new_id: Seq<char>, j: int)
    requires
        0 <= j < rs.len(),
        rs[j].id == id,
        forall|k: int| 0 <= k < j ==> rs[k].id != id,
    ensures
        ({
            let after = save_spec(rs, Some(id), kind, name, config, active, new_id);
            &&& after.len() == rs.len()
            &&& after[j].name == name
            &&& after[j].config == config
            &&& after[j].is_active == active
            &&& after[j].id == rs[j].id
            &&& after[j].resource_type == rs[j].resource_type
            &&& after[j].session_token == rs[j].session_token
            &&& forall|k: int| 0 <= k < rs.len() && k != j ==> #[trigger] after[k] == rs[k]
        }),
{
    lemma_find_resource(rs, id);
    let f = find_resource(rs, id);
    if f is None {
        assert(rs[j].id != id);
    } else {
        let g = f->0;
        if g < j {
            assert(rs[g].id != id);
        } else if g > j {
            assert(rs[j].id != id);
        }
    }
}

/// Saving with an id that names no resource changes nothing.
pub proof fn lemma_edit_of_unknown_id(rs: Seq<ResourceView>, id: Seq<char>, kind: ResourceType, name: Seq<char>,
    config: Option<Seq<char>>, active: bool, new_id: Seq<char>)
    requires
        forall|k: int| 0 <= k < rs.len() ==> rs[k].id != id,
    ensures
        save_spec(rs, Some(id), kind, name, config, active, new_id) == rs,
{
    lemma_find_resource(rs, id);
}

/// A key that needs no escaping inside a JSON string.
pub open spec fn plain_key(key: Seq<char>) -> bool {
    forall|i: int| 0 <= i < key.len() ==> ('a' <= #[trigger] key[i] && key[i] <= 'z') || key[i] == '_'
}

/// The JSON text of an object with one boolean member, with `space` after
/// the colon or not.
pub open spec fn bool_object(key: Seq<char>, value: bool, space: bool) -> Seq<char> {
    "{\""@ + key + (if space { "\": "@ } else { "\":"@ }) + (if value { "true"@ } else { "false"@ }) + "}"@
}

/// What `serde_json` reads as the boolean member `key` of the JSON text:
/// nothing when the text is not JSON, is not an object, lacks the member,
/// or the member is not a boolean.
pub uninterp spec fn json_bool_member(text: Seq<char>, key: Seq<char>) -> Option<bool>;

/// Reads a boolean member of a JSON object with `serde_json::from_str`
/// into a `serde_json::Value`, then `get` and `as_bool`. Of the result the
/// contract says, beyond its name, only what JSON itself fixes: an object
/// with just that member, written plainly, gives the member's value.
#[verifier::external_body]
fn json_bool(text: &str, key: &str) -> (res: Option<bool>)
    ensures
        res == json_bool_member(text@, key@),
        plain_key(key@) && text@ == bool_object(key@, true, false) ==> res == Some(true),
        plain_key(key@) && text@ == bool_object(key@, false, false) ==> res == Some(false),
        plain_key(key@) && text@ == bool_object(key@, true, true) ==> res == Some(true),
        plain_key(key@) && text@ == bool_object(key@, false, true) ==> res == Some(false),
{
    match serde_json::from_str::<serde_json::Value>(text) {
        Ok(v) => match v.get(key) {
            Some(b) => b.as_bool(),
            None => None,
        },
        Err(_) => None,
    }
}

proof fn lemma_plain_keys()
    ensures
        plain_key("allow_local_network"@),
        plain_key("allow_control"@),
{
    reveal_strlit("allow_local_network");
    reveal_strlit("allow_control");
}

/// The settings of the network gateway: whether peers may reach this
/// device's local network.
pub fn gateway_config(allow_local: bool) -> (res: String)
    ensures
        res@ == bool_object("allow_local_network"@, allow_local, false),
{
    if allow_local {
        let r = "{\"allow_local_network\":true}".to_owned();
        proof {
            reveal_strlit("{\"allow_local_network\":true}");
            reveal_strlit("{\"");
            reveal_strlit("allow_local_network");
            reveal_strlit("\":");
            reveal_strlit("true");
            reveal_strlit("}");
            assert(r@ =~= bool_object("allow_local_network"@, true, false));
        }
        r
    } else {
        let r = "{\"allow_local_network\":false}".to_owned();
        proof {
            reveal_strlit("{\"allow_local_network\":false}");
            reveal_strlit("{\"");
            reveal_strlit("allow_local_network");
            reveal_strlit("\":");
            reveal_strlit("false");
            reveal_strlit("}");
            assert(r@ =~= bool_object("allow_local_network"@, false, false));
        }
        r
    }
}

/// Whether the gateway lets peers reach the local network: what its
/// settings say, and no when they say nothing.
pub fn read_allow_local(config: &Option<String>) -> (res: bool)
    ensures
        res == (match *config {
            Some(c) => match json_bool_member(c@, "allow_local_network"@) { Some(b) => b, None => false },
            None => false,
        }),
        forall|b: bool| opt_text(*config) == Some(bool_object("allow_local_network"@, b, false)) ==> res == b,
{
    proof { lemma_plain_keys(); }
    match config {
        Some(c) => match json_bool(c.as_str(), "allow_local_network") {
            Some(b) => b,
            None => false,
        },
        None => false,
    }
}

/// The settings of the remote desktop: whether peers may control it.
pub fn desktop_config(allow_control: bool) -> (res: String)
    ensures
        res@ == bool_object("allow_control"@, allow_control, true),
{
    if allow_control {
        let r = "{\"allow_control\": true}".to_owned();
        proof {
            reveal_strlit("{\"allow_control\": true}");
            reveal_strlit("{\"");
            reveal_strlit("allow_control");
            reveal_strlit("\": ");
            reveal_strlit("true");
            reveal_strlit("}");
            assert(r@ =~= bool_object("allow_control"@, true, true));
        }
        r
    } else {
        let r = "{\"allow_control\": false}".to_owned();
        proof {
            reveal_strlit("{\"allow_control\": false}");
            reveal_strlit("{\"");
            reveal_strlit("allow_control");
            reveal_strlit("\": ");
            reveal_strlit("false");
            reveal_strlit("}");
            assert(r@ =~= bool_object("allow_control"@, false, true));
        }
        r
    }
}

/// Whether the remote desktop form starts with control allowed: yes,
/// unless a remote desktop's settings say no.
pub fn read_allow_control(kind: ResourceType, config: &Option<String>) -> (res: bool)
    ensures
        res == (match *config {
            Some(c) => if kind == ResourceType::RemoteDesktop {
                match json_bool_member(c@, "allow_control"@) { Some(b) => b, None => true }
            } else { true },
            None => true,
        }),
        kind == ResourceType::RemoteDesktop ==> forall|b: bool|
            opt_text(*config) == Some(bool_object("allow_control"@, b, true)) ==> res == b,
{
    proof { lemma_plain_keys(); }
    match config {
        Some(c) => {
            if kind == ResourceType::RemoteDesktop {
                match json_bool(c.as_str(), "allow_control") {
                    Some(b) => b,
                    None => true,
                }
            } else {
                true
            }
        },
        None => true,
    }
}

/// The title key of a settings form: editing or adding.
pub fn form_title_key(editing: bool) -> (res: &'static str)
    ensures
        res@ == (if editing { "common_forms.edit_service"@ } else { "common_forms.add_service"@ }),
{
    if editing { "common_forms.edit_service" } else { "common_forms.add_service" }
}

/// The icon of the network gateway.
pub fn gateway_icon_path() -> (res: &'static str)
    ensures
        res@ == "/com/net-ui/gtk/vpn.svg"@,
{
    "/com/net-ui/gtk/vpn.svg"
}

/// The icon of the remote desktop: a Mac on macOS, a PC elsewhere.
pub fn desktop_icon_path(macos: bool) -> (res: &'static str)
    ensures
        res@ == (if macos { "/com/rdesk-ui/gtk/desktop-mac.svg"@ } else { "/com/rdesk-ui/gtk/desktop-pc.svg"@ }),
{
    if macos { "/com/rdesk-ui/gtk/desktop-mac.svg" } else { "/com/rdesk-ui/gtk/desktop-pc.svg" }
}

/// Where installing one requirement stands.
pub enum DiagStatus {
    Idle,
    Installing,
    Done,
    Failed(String),
}

/// The requirements the remote desktop checks on Linux.
#[derive(Clone, Copy, Debug, PartialEq, Eq, Structural)]
pub enum Requirement {
    GStreamer,
    Portal,
}

/// The remote desktop's diagnostics.
pub struct Diagnostics {
    pub gst_available: bool,
    pub portal_available: bool,
    pub gst_status: DiagStatus,
    pub portal_status: DiagStatus,
}

impl Diagnostics {
    /// The diagnostics as they open, with what was found installed.
    pub fn new(gst_available: bool, portal_available: bool) -> (res: Diagnostics)
        ensures
            res.gst_available == gst_available,
            res.portal_available == portal_available,
            res.gst_status is Idle,
            res.portal_status is Idle,
    {
        Diagnostics { gst_available, portal_available, gst_status: DiagStatus::Idle, portal_status: DiagStatus::Idle }
    }

    /// Asks to install a requirement: starts it unless it is installing
    /// already, and says whether it started.
    pub fn request(&mut self, which: Requirement) -> (res: bool)
        ensures
            which == Requirement::GStreamer ==> (res == !(old(self).gst_status is Installing)
                && final(self).gst_status is Installing
                && final(self).portal_status == old(self).portal_status),
            which == Requirement::Portal ==> (res == !(old(self).portal_status is Installing)
                && final(self).portal_status is Installing
                && final(self).gst_status == old(self).gst_status),
            final(self).gst_available == old(self).gst_available,
            final(self).portal_available == old(self).portal_available,
    {
        match which {
            Requirement::GStreamer => {
                if let DiagStatus::Installing = self.gst_status {
                    return false;
                }
                self.gst_status = DiagStatus::Installing;
                true
            },
            Requirement::Portal => {
                if let DiagStatus::Installing = self.portal_status {
                    return false;
                }
                self.portal_status = DiagStatus::Installing;
                true
            },
        }
    }

    /// An installation finished: its status becomes done or failed with
    /// the error, and both requirements are checked again.
    pub fn finished(&mut self, which: Requirement, outcome: Result<(), String>, gst_available: bool, portal_available: bool)
        ensures
            final(self).gst_available == gst_available,
            final(self).portal_available == portal_available,
            which == Requirement::GStreamer ==> final(self).portal_status == old(self).portal_status,
            which == Requirement::Portal ==> final(self).gst_status == old(self).gst_status,
            ({
                let s = if which == Requirement::GStreamer { final(self).gst_status } else { final(self).portal_status };
                match outcome {
                    Ok(()) => s is Done,
                    Err(e) => (s matches DiagStatus::Failed(f) && f@ == e@),
                }
            }),
    {
        let status = match outcome {
            Ok(()) => DiagStatus::Done,
            Err(e) => DiagStatus::Failed(e),
        };
        match which {
            Requirement::GStreamer => self.gst_status = status,
            Requirement::Portal => self.portal_status = status,
        }
        self.gst_available = gst_available;
        self.portal_available = portal_available;
    }
}

/// The line about a requirement.
pub open spec fn diag_text(c: CatalogView, which: Requirement, status: DiagStatus, available: bool) -> Seq<char> {
    let gst = which == Requirement::GStreamer;
    match status {
        DiagStatus::Installing => translate(c, if gst { "rdesk.installing_gst"@ } else { "rdesk.installing_portal"@ }),
        DiagStatus::Done => translate(c, if gst { "rdesk.gst_success"@ } else { "rdesk.portal_success"@ }),
        DiagStatus::Failed(e) => interpolate(translate(c, "rdesk.install_failed"@), seq![("error"@, e@)]),
        DiagStatus::Idle => translate(c, if gst {
            if available { "rdesk.gst_available"@ } else { "rdesk.gst_missing"@ }
        } else {
            if available { "rdesk.portal_available"@ } else { "rdesk.portal_missing"@ }
        }),
    }
}

/// The line about a requirement, and whether its install button shows
/// and reacts: it shows while the requirement is missing and reacts
/// unless it is installing.
pub fn diag_line(catalog: &Catalog, which: Requirement, status: &DiagStatus, available: bool) -> (res: (String, bool, bool))
    ensures
        res.0@ == diag_text(catalog@, which, *status, available),
        res.1 == !available,
        res.2 == !(*status is Installing),
{
    let gst = which == Requirement::GStreamer;
    let text = match status {
        DiagStatus::Installing => catalog.tr(if gst { "rdesk.installing_gst" } else { "rdesk.installing_portal" }),
        DiagStatus::Done => catalog.tr(if gst { "rdesk.gst_success" } else { "rdesk.portal_success" }),
        DiagStatus::Failed(e) => {
            let args = [("error", e.as_str())];
            let t = catalog.trf("rdesk.install_failed", &args);
            assert(args_view(args@) =~= seq![("error"@, e@)]);
            t
        },
        DiagStatus::Idle => catalog.tr(if gst {
            if available { "rdesk.gst_available" } else { "rdesk.gst_missing" }
        } else {
            if available { "rdesk.portal_available" } else { "rdesk.portal_missing" }
        }),
    };
    let installing = match status {
        DiagStatus::Installing => true,
        _ => false,
    };
    (text, !available, !installing)
}

} // verus!
