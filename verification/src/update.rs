//! Finding and installing a newer version.

use crate::number;
use crate::text;
use vstd::prelude::*;

verus! {

broadcast use vstd::string::group_string_axioms;

// ---------------------------------------------------------------------------
// Versions
// ---------------------------------------------------------------------------

/// The number at a place of a version; zero where there is none.
pub open spec fn version_part(parts: Seq<Seq<char>>, i: int) -> int {
    if i < parts.len() {
        match number::read_u32(parts[i]) {
            Some(n) => n,
            None => 0,
        }
    } else {
        0
    }
}

/// The three numbers of a version, `major.minor.patch`.
pub open spec fn version_of(v: Seq<char>) -> (int, int, int) {
    let parts = text::pieces(v, '.');
    (version_part(parts, 0), version_part(parts, 1), version_part(parts, 2))
}

/// Whether the first version is higher than the second one.
pub open spec fn higher(a: (int, int, int), b: (int, int, int)) -> bool {
    a.0 > b.0 || (a.0 == b.0 && (a.1 > b.1 || (a.1 == b.1 && a.2 > b.2)))
}

/// Whether one version is newer than another.
pub open spec fn newer(remote: Seq<char>, local: Seq<char>) -> bool {
    higher(version_of(remote), version_of(local))
}

/// No version is newer than itself, and of two versions at most one is newer.
pub proof fn newer_is_strict(a: Seq<char>, b: Seq<char>)
    ensures
        !newer(a, a),
        newer(a, b) ==> !newer(b, a),
{
}

/// What is newer than a newer version is newer.
pub proof fn newer_chains(a: Seq<char>, b: Seq<char>, c: Seq<char>)
    requires
        newer(a, b),
        newer(b, c),
    ensures
        newer(a, c),
{
}

/// Of two versions with different numbers one is newer.
pub proof fn newer_is_total(a: Seq<char>, b: Seq<char>)
    requires
        version_of(a) != version_of(b),
    ensures
        newer(a, b) || newer(b, a),
{
}

fn part_of(parts: &Vec<String>, i: usize) -> (r: u32)
    ensures
        r == version_part(parts.deep_view(), i as int),
{
    assert(parts.deep_view().len() == parts.len());
    if i < parts.len() {
        assert(parts.deep_view()[i as int] == parts[i as int]@);
        match number::parse_u32(parts[i].as_str()) {
            Some(n) => n,
            None => 0,
        }
    } else {
        0
    }
}

/// Whether the remote version is higher than the local one, by `major.minor.patch`.
pub fn is_newer_version(remote: &str, local: &str) -> (r: bool)
    ensures
        r == newer(remote@, local@),
{
    let a = text::split(remote, '.');
    let b = text::split(local, '.');
    let (a0, a1, a2) = (part_of(&a, 0), part_of(&a, 1), part_of(&a, 2));
    let (b0, b1, b2) = (part_of(&b, 0), part_of(&b, 1), part_of(&b, 2));
    a0 > b0 || (a0 == b0 && (a1 > b1 || (a1 == b1 && a2 > b2)))
}

/// The ending of the file that is published for a platform.
pub fn platform_release_asset_suffix(windows: bool) -> (r: &'static str)
    ensures
        r@ == asset_suffix(windows),
{
    if windows {
        ".zip"
    } else {
        ".tar.gz"
    }
}

/// The ending of the file that is published for a platform.
pub open spec fn asset_suffix(windows: bool) -> Seq<char> {
    if windows {
        ".zip"@
    } else {
        ".tar.gz"@
    }
}

// ---------------------------------------------------------------------------
// The description of a release
// ---------------------------------------------------------------------------

/// A JSON value, as far as it is looked at.
#[derive(Debug)]
pub enum Json {
    Text(String),
    List(Vec<Json>),
    Record(Vec<(String, Json)>),
    Other,
}

/// What a JSON value is, as far as it is looked at.
#[verifier::ext_equal]
pub enum JsonView {
    Text(Seq<char>),
    List(Seq<JsonView>),
    Record(Seq<(Seq<char>, JsonView)>),
    Other,
}

impl Json {
    /// What the value is.
    pub open spec fn view(&self) -> JsonView
        decreases self,
    {
        match self {
            Json::Text(s) => JsonView::Text(s@),
            Json::List(v) => JsonView::List(
                Seq::new(
                    v@.len(),
                    |i: int|
                        if 0 <= i < v@.len() {
                            v@[i].view()
                        } else {
                            JsonView::Other
                        },
                ),
            ),
            Json::Record(v) => JsonView::Record(
                Seq::new(
                    v@.len(),
                    |i: int|
                        if 0 <= i < v@.len() {
                            (v@[i].0@, v@[i].1.view())
                        } else {
                            (Seq::empty(), JsonView::Other)
                        },
                ),
            ),
            Json::Other => JsonView::Other,
        }
    }
}

/// A value of the crate `serde_json`.
#[verifier::external_type_specification]
#[verifier::external_body]
pub struct ExValue(serde_json::Value);

/// What `serde_json::from_slice` reads from bytes; none where it fails.
pub uninterp spec fn value_of(bytes: Seq<u8>) -> Option<serde_json::Value>;

/// The texts, arrays and objects that make up a value of the crate `serde_json`.
pub uninterp spec fn tree_of(value: serde_json::Value) -> JsonView;

/// `serde_json::from_slice`, without its error: what is read is a function of the bytes.
#[verifier::external_body]
fn parse_value(bytes: &Vec<u8>) -> (r: Option<serde_json::Value>)
    ensures
        r == value_of(bytes@),
{
    serde_json::from_slice(bytes).ok()
}

/// The variants of `serde_json::Value`, one for one: texts, arrays and objects with what they
/// hold, everything else as one kind.
#[verifier::external_body]
fn json_from(value: serde_json::Value) -> (r: Json)
    ensures
        r@ == tree_of(value),
{
    match value {
        serde_json::Value::String(s) => Json::Text(s),
        serde_json::Value::Array(v) => Json::List(v.into_iter().map(json_from).collect()),
        serde_json::Value::Object(m) => {
            Json::Record(m.into_iter().map(|(k, v)| (k, json_from(v))).collect())
        },
        _ => Json::Other,
    }
}

/// What is read from bytes.
pub open spec fn json_of(bytes: Seq<u8>) -> Option<JsonView> {
    match value_of(bytes) {
        Some(value) => Some(tree_of(value)),
        None => None,
    }
}

/// The field of a record with the given name.
pub open spec fn field_of(json: JsonView, name: Seq<char>) -> Option<JsonView> {
    match json {
        JsonView::Record(fields) => field_in(fields, name),
        _ => None,
    }
}

/// The first of some fields with the given name.
pub open spec fn field_in(fields: Seq<(Seq<char>, JsonView)>, name: Seq<char>) -> Option<JsonView>
    decreases fields.len(),
{
    if fields.len() == 0 {
        None
    } else if fields[0].0 == name {
        Some(fields[0].1)
    } else {
        field_in(fields.drop_first(), name)
    }
}

/// The text in the field of a record with the given name.
pub open spec fn text_field(json: JsonView, name: Seq<char>) -> Option<Seq<char>> {
    match field_of(json, name) {
        Some(JsonView::Text(s)) => Some(s),
        _ => None,
    }
}

/// The list in the field of a record with the given name.
pub open spec fn list_field(json: JsonView, name: Seq<char>) -> Option<Seq<JsonView>> {
    match field_of(json, name) {
        Some(JsonView::List(v)) => Some(v),
        _ => None,
    }
}

/// Whether a published file is one for the platform.
pub open spec fn fits_platform(asset: JsonView, suffix: Seq<char>) -> bool {
    text_field(asset, "name"@) matches Some(name) && text::ends_with(name, suffix)
}

/// Where the first of the published files for the platform can be fetched.
pub open spec fn asset_url(assets: Seq<JsonView>, suffix: Seq<char>) -> Option<Seq<char>>
    decreases assets.len(),
{
    if assets.len() == 0 {
        None
    } else if fits_platform(assets[0], suffix) {
        text_field(assets[0], "browser_download_url"@)
    } else {
        asset_url(assets.drop_first(), suffix)
    }
}

/// A release: its version and where it can be fetched.
#[derive(Debug)]
pub struct UpdateCheckResult {
    pub version: String,
    pub download_url: String,
}

/// What a release is.
#[verifier::ext_equal]
pub struct ReleaseView {
    pub version: Seq<char>,
    pub download_url: Seq<char>,
}

impl View for UpdateCheckResult {
    type V = ReleaseView;

    open spec fn view(&self) -> ReleaseView {
        ReleaseView { version: self.version@, download_url: self.download_url@ }
    }
}

/// The release that a description tells of, or what is missing in it.
pub open spec fn release_of(json: JsonView, suffix: Seq<char>) -> Result<ReleaseView, Seq<char>> {
    match text_field(json, "tag_name"@) {
        None => Err("Nelze přečíst verzi"@),
        Some(version) => match list_field(json, "assets"@) {
            None => Err("Žádné assets"@),
            Some(assets) => match asset_url(assets, suffix) {
                None => Err("Žádný release asset pro tuto platformu"@),
                Some(download_url) => Ok(ReleaseView { version, download_url }),
            },
        },
    }
}

/// What comes of the body of a reply: the release, or what went wrong. Of a body that does not
/// read, the words of the HTTP client are told.
pub open spec fn reply_of(parsed: Option<JsonView>, suffix: Seq<char>) -> Result<
    ReleaseView,
    Seq<char>,
> {
    match parsed {
        Some(json) => release_of(json, suffix),
        None => Err("error decoding response body"@),
    }
}

/// The views of a release or an error.
pub open spec fn result_view(r: Result<UpdateCheckResult, String>) -> Result<
    ReleaseView,
    Seq<char>,
> {
    match r {
        Ok(x) => Ok(x@),
        Err(e) => Err(e@),
    }
}

fn find_field<'a>(json: &'a Json, name: &str) -> (r: Option<&'a Json>)
    ensures
        r is Some == field_of(json@, name@) is Some,
        r matches Some(x) ==> field_of(json@, name@) == Some(x@),
{
    match json {
        Json::Record(fields) => {
            let ghost known = json@->Record_0;
            let mut i: usize = 0;
            assert(known.skip(0) == known);
            while i < fields.len()
                invariant
                    i <= fields.len(),
                    json@ == JsonView::Record(known),
                    known.len() == fields.len(),
                    forall|k: int|
                        0 <= k < known.len() ==> #[trigger] known[k] == (
                            fields@[k].0@,
                            fields@[k].1@,
                        ),
                    field_in(known, name@) == field_in(known.skip(i as int), name@),
                decreases fields.len() - i,
            {
                assert(known.skip(i as int).drop_first() == known.skip(i + 1));
                assert(known.skip(i as int)[0] == known[i as int]);
                if text::same(fields[i].0.as_str(), name) {
                    return Some(&fields[i].1);
                }
                i += 1;
            }
            None
        },
        _ => None,
    }
}

fn find_text(json: &Json, name: &str) -> (r: Option<String>)
    ensures
        r.deep_view() == text_field(json@, name@),
{
    match find_field(json, name) {
        Some(Json::Text(s)) => Some(s.clone()),
        _ => None,
    }
}

/// The release that a description tells of.
pub fn read_release(json: &Json, suffix: &str) -> (r: Result<UpdateCheckResult, String>)
    ensures
        result_view(r) == release_of(json@, suffix@),
{
    let version = match find_text(json, "tag_name") {
        Some(v) => v,
        None => {
            return Err("Nelze přečíst verzi".to_owned());
        },
    };
    let assets = match find_field(json, "assets") {
        Some(Json::List(v)) => v,
        _ => {
            return Err("Žádné assets".to_owned());
        },
    };
    let ghost known = list_field(json@, "assets"@)->0;
    let mut i: usize = 0;
    assert(known.skip(0) == known);
    while i < assets.len()
        invariant
            i <= assets.len(),
            text_field(json@, "tag_name"@) == Some(version@),
            list_field(json@, "assets"@) == Some(known),
            known.len() == assets.len(),
            forall|k: int| 0 <= k < known.len() ==> #[trigger] known[k] == assets@[k]@,
            asset_url(known, suffix@) == asset_url(known.skip(i as int), suffix@),
        decreases assets.len() - i,
    {
        assert(known.skip(i as int).drop_first() == known.skip(i + 1));
        assert(known.skip(i as int)[0] == known[i as int]);
        let fits = match find_text(&assets[i], "name") {
            Some(name) => text::ends(name.as_str(), suffix),
            None => false,
        };
        if fits {
            return match find_text(&assets[i], "browser_download_url") {
                Some(download_url) => Ok(UpdateCheckResult { version, download_url }),
                None => Err("Žádný release asset pro tuto platformu".to_owned()),
            };
        }
        i += 1;
    }
    Err("Žádný release asset pro tuto platformu".to_owned())
}

/// The release that the body of a reply tells of.
pub fn read_reply(body: &Vec<u8>, windows: bool) -> (r: Result<UpdateCheckResult, String>)
    ensures
        result_view(r) == reply_of(json_of(body@), asset_suffix(windows)),
{
    match parse_value(body) {
        Some(value) => {
            let json = json_from(value);
            read_release(&json, platform_release_asset_suffix(windows))
        },
        None => Err("error decoding response body".to_owned()),
    }
}

/// Where the description of the latest release of a project can be fetched.
pub fn latest_release_url(repo: &str) -> (r: String)
    ensures
        r@ == "https://api.github.com/repos/"@ + repo@ + "/releases/latest"@,
{
    let mut s = "https://api.github.com/repos/".to_owned();
    s.append(repo);
    s.append("/releases/latest");
    s
}

// ---------------------------------------------------------------------------
// The window
// ---------------------------------------------------------------------------

/// Where the search for a newer version stands.
#[derive(Debug)]
pub enum UpdateState {
    Idle,
    Checking,
    UpdateAvailable { version: String, url: String },
    Downloading,
    UpToDate,
}

/// What a state is.
#[verifier::ext_equal]
pub enum UpdateStateView {
    Idle,
    Checking,
    UpdateAvailable { version: Seq<char>, url: Seq<char> },
    Downloading,
    UpToDate,
}

impl View for UpdateState {
    type V = UpdateStateView;

    open spec fn view(&self) -> UpdateStateView {
        match *self {
            UpdateState::Idle => UpdateStateView::Idle,
            UpdateState::Checking => UpdateStateView::Checking,
            UpdateState::UpdateAvailable { version, url } => UpdateStateView::UpdateAvailable {
                version: version@,
                url: url@,
            },
            UpdateState::Downloading => UpdateStateView::Downloading,
            UpdateState::UpToDate => UpdateStateView::UpToDate,
        }
    }
}

/// The state of the update window.
#[derive(Debug)]
pub struct UpdateBox {
    pub state: UpdateState,
    pub show: bool,
    /// Whether a reply is awaited.
    pub awaited: bool,
    /// Whether the version was looked for at the start.
    pub auto_checked: bool,
}

/// What the state of the window is.
#[verifier::ext_equal]
pub struct UpdateBoxView {
    pub state: UpdateStateView,
    pub show: bool,
    pub awaited: bool,
    pub auto_checked: bool,
}

impl View for UpdateBox {
    type V = UpdateBoxView;

    open spec fn view(&self) -> UpdateBoxView {
        UpdateBoxView {
            state: self.state@,
            show: self.show,
            awaited: self.awaited,
            auto_checked: self.auto_checked,
        }
    }
}

/// What a look for the awaited reply finds.
#[derive(Debug)]
pub enum UpdateReply {
    /// The reply.
    Came(Result<UpdateCheckResult, String>),
    /// Nothing yet.
    Nothing,
    /// Nothing, and nothing will come.
    Lost,
}

impl UpdateBoxView {
    /// Whether the state keeps a new look for a version from starting.
    pub open spec fn busy(self) -> bool {
        self.state is Checking || self.state is Downloading
    }

    /// The window once a version is looked for.
    pub open spec fn checking(self, show: bool) -> UpdateBoxView {
        if self.busy() {
            self
        } else {
            UpdateBoxView {
                state: UpdateStateView::Checking,
                show: self.show || show,
                awaited: true,
                ..self
            }
        }
    }

    /// The window after a look for the reply, for the version that runs.
    pub open spec fn polled(self, reply: UpdateReply, current: Seq<char>) -> UpdateBoxView {
        if !self.awaited {
            self
        } else {
            match reply {
                UpdateReply::Came(Ok(release)) => if newer(
                    text::without_head(release.version@, 'v'),
                    current,
                ) {
                    UpdateBoxView {
                        state: UpdateStateView::UpdateAvailable {
                            version: release.version@,
                            url: release.download_url@,
                        },
                        show: true,
                        awaited: false,
                        ..self
                    }
                } else {
                    UpdateBoxView { state: UpdateStateView::UpToDate, awaited: false, ..self }
                },
                UpdateReply::Came(Err(_)) => UpdateBoxView {
                    state: UpdateStateView::UpToDate,
                    show: false,
                    awaited: false,
                    ..self
                },
                UpdateReply::Nothing => self,
                UpdateReply::Lost => UpdateBoxView {
                    state: UpdateStateView::Idle,
                    awaited: false,
                    ..self
                },
            }
        }
    }
}

/// A newer version is offered exactly where the reply tells of one.
pub proof fn offered_when_newer(b: UpdateBoxView, reply: UpdateReply, current: Seq<char>)
    requires
        b.awaited,
        !(b.state is UpdateAvailable),
    ensures
        b.polled(reply, current).state is UpdateAvailable <==> (reply matches UpdateReply::Came(
            Ok(release),
        ) && newer(text::without_head(release.version@, 'v'), current)),
{
}

impl UpdateBox {
    /// The window before any look for a version.
    pub fn new() -> (r: UpdateBox)
        ensures
            r@ == (UpdateBoxView {
                state: UpdateStateView::Idle,
                show: false,
                awaited: false,
                auto_checked: false,
            }),
    {
        UpdateBox { state: UpdateState::Idle, show: false, awaited: false, auto_checked: false }
    }

    fn busy(&self) -> (r: bool)
        ensures
            r == self@.busy(),
    {
        match self.state {
            UpdateState::Checking => true,
            UpdateState::Downloading => true,
            _ => false,
        }
    }

    /// Looks for a version and shows the window; tells whether the reply has to be fetched.
    pub fn check_for_update(&mut self) -> (r: bool)
        ensures
            final(self)@ == old(self)@.checking(true),
            r == !old(self)@.busy(),
    {
        if self.busy() {
            return false;
        }
        self.state = UpdateState::Checking;
        self.show = true;
        self.awaited = true;
        true
    }

    /// Looks for a version without showing the window; tells whether the reply has to be
    /// fetched.
    pub fn check_for_update_silent(&mut self) -> (r: bool)
        ensures
            final(self)@ == old(self)@.checking(false),
            r == !old(self)@.busy(),
    {
        if self.busy() {
            return false;
        }
        self.state = UpdateState::Checking;
        self.awaited = true;
        true
    }

    /// Takes in what a look for the reply found; gives the message of a failure.
    pub fn poll_update_check(&mut self, reply: UpdateReply, current: &str) -> (r: Option<String>)
        ensures
            final(self)@ == old(self)@.polled(reply, current@),
            r is Some == (old(self).awaited && (reply matches UpdateReply::Came(Err(_)))),
            r matches Some(m) ==> (reply matches UpdateReply::Came(Err(e)) && m@
                == "Update selhal: "@ + e@),
    {
        if !self.awaited {
            return None;
        }
        match reply {
            UpdateReply::Came(Ok(release)) => {
                self.awaited = false;
                let tag = text::trim_start_char(release.version.as_str(), 'v');
                if is_newer_version(tag.as_str(), current) {
                    self.state = UpdateState::UpdateAvailable {
                        version: release.version,
                        url: release.download_url,
                    };
                    self.show = true;
                } else {
                    self.state = UpdateState::UpToDate;
                }
                None
            },
            UpdateReply::Came(Err(e)) => {
                self.awaited = false;
                self.state = UpdateState::UpToDate;
                self.show = false;
                let mut m = "Update selhal: ".to_owned();
                m.append(e.as_str());
                Some(m)
            },
            UpdateReply::Nothing => None,
            UpdateReply::Lost => {
                self.awaited = false;
                self.state = UpdateState::Idle;
                None
            },
        }
    }

    /// Starts to fetch the offered version; gives where from. None where no version is
    /// offered.
    pub fn download_and_replace(&mut self) -> (r: Option<String>)
        ensures
            match old(self)@.state {
                UpdateStateView::UpdateAvailable { version, url } => {
                    &&& final(self)@ == (UpdateBoxView {
                        state: UpdateStateView::Downloading,
                        awaited: true,
                        ..old(self)@
                    })
                    &&& r.deep_view() == Some(url)
                },
                _ => *final(self) == *old(self) && r is None,
            },
    {
        let url = match &self.state {
            UpdateState::UpdateAvailable { url, .. } => url.clone(),
            _ => {
                return None;
            },
        };
        self.state = UpdateState::Downloading;
        self.awaited = true;
        Some(url)
    }
}

/// A version is read as the numbers between its points; the second and the third count as
/// nothing where they are missing.
pub proof fn versions_by_numbers(a: nat, b: nat, c: nat)
    requires
        a <= u32::MAX,
        b <= u32::MAX,
        c <= u32::MAX,
    ensures
        version_of(number::nat_text(a)) == (a as int, 0int, 0int),
        version_of(number::nat_text(a) + seq!['.'] + number::nat_text(b)) == (
            a as int,
            b as int,
            0int,
        ),
        version_of(
            number::nat_text(a) + seq!['.'] + (number::nat_text(b) + seq!['.'] + number::nat_text(
                c,
            )),
        ) == (a as int, b as int, c as int),
{
    let (ta, tb, tc) = (number::nat_text(a), number::nat_text(b), number::nat_text(c));
    number::nat_text_reads_back_u32(a);
    number::nat_text_reads_back_u32(b);
    number::nat_text_reads_back_u32(c);
    lemma_no_point(a);
    lemma_no_point(b);
    lemma_no_point(c);
    let bc = tb + seq!['.'] + tc;
    text::pieces_by_separators(ta, '.', tb);
    text::pieces_by_separators(tb, '.', tc);
    text::pieces_by_separators(tc, '.', tc);
    text::pieces_by_separators(ta, '.', bc);
    assert(seq![ta] + seq![tb] =~= seq![ta, tb]);
    assert(seq![tb] + seq![tc] =~= seq![tb, tc]);
    assert(seq![ta] + seq![tb, tc] =~= seq![ta, tb, tc]);
}

proof fn lemma_no_point(n: nat)
    ensures
        !number::nat_text(n).contains('.'),
{
    number::nat_text_reads_back(n);
    let t = number::nat_text(n);
    if t.contains('.') {
        let k = choose|k: int| 0 <= k < t.len() && t[k] == '.';
        assert(number::is_digit(t[k]));
    }
}

/// Of two versions of three numbers, the newer one is that with the larger number in the first
/// place where they differ.
pub proof fn newer_by_the_first_difference(
    a: (nat, nat, nat),
    b: (nat, nat, nat),
    va: Seq<char>,
    vb: Seq<char>,
)
    requires
        a.0 <= u32::MAX && a.1 <= u32::MAX && a.2 <= u32::MAX,
        b.0 <= u32::MAX && b.1 <= u32::MAX && b.2 <= u32::MAX,
        va == number::nat_text(a.0) + seq!['.'] + (number::nat_text(a.1) + seq!['.']
            + number::nat_text(a.2)),
        vb == number::nat_text(b.0) + seq!['.'] + (number::nat_text(b.1) + seq!['.']
            + number::nat_text(b.2)),
    ensures
        a.0 > b.0 ==> newer(va, vb),
        a.0 == b.0 && a.1 > b.1 ==> newer(va, vb),
        a.0 == b.0 && a.1 == b.1 && a.2 > b.2 ==> newer(va, vb),
        a == b ==> !newer(va, vb),
        a.0 < b.0 ==> !newer(va, vb),
        a.0 == b.0 && a.1 < b.1 ==> !newer(va, vb),
        a.0 == b.0 && a.1 == b.1 && a.2 < b.2 ==> !newer(va, vb),
{
    versions_by_numbers(a.0, a.1, a.2);
    versions_by_numbers(b.0, b.1, b.2);
}

/// The value of a field is that of the first with its name; a record without it has none.
pub proof fn field_is_the_first(
    before: Seq<(Seq<char>, JsonView)>,
    name: Seq<char>,
    value: JsonView,
    behind: Seq<(Seq<char>, JsonView)>,
)
    requires
        forall|i: int| 0 <= i < before.len() ==> (#[trigger] before[i]).0 != name,
    ensures
        field_in(before + seq![(name, value)] + behind, name) == Some(value),
        field_in(before, name) is None,
    decreases before.len(),
{
    let all = before + seq![(name, value)] + behind;
    if before.len() > 0 {
        let rest = before.drop_first();
        assert(all.drop_first() =~= rest + seq![(name, value)] + behind);
        assert forall|i: int| 0 <= i < rest.len() implies (#[trigger] rest[i]).0 != name by {
            assert(rest[i] == before[i + 1]);
        }
        field_is_the_first(rest, name, value, behind);
        assert(all[0] == before[0]);
    } else {
        assert(all[0] == (name, value));
    }
}

/// The address to download from is that of the first asset whose name ends as the platform asks;
/// where none does, there is none.
pub proof fn asset_is_the_first(
    before: Seq<JsonView>,
    asset: JsonView,
    behind: Seq<JsonView>,
    name: Seq<char>,
    suffix: Seq<char>,
)
    requires
        forall|i: int| 0 <= i < before.len() ==> !fits_platform(#[trigger] before[i], suffix),
    ensures
        text_field(asset, "name"@) == Some(name + suffix) ==> asset_url(
            before + seq![asset] + behind,
            suffix,
        ) == text_field(asset, "browser_download_url"@),
        asset_url(before, suffix) is None,
    decreases before.len(),
{
    let all = before + seq![asset] + behind;
    text::ends_by_parting(name + suffix, suffix);
    if before.len() > 0 {
        let rest = before.drop_first();
        assert(all.drop_first() =~= rest + seq![asset] + behind);
        assert forall|i: int| 0 <= i < rest.len() implies !fits_platform(
            #[trigger] rest[i],
            suffix,
        ) by {
            assert(rest[i] == before[i + 1]);
        }
        asset_is_the_first(rest, asset, behind, name, suffix);
        assert(all[0] == before[0]);
    } else {
        assert(all[0] == asset);
    }
}

/// An asset fits the platform exactly where its name ends as the platform asks.
pub proof fn assets_fit_by_their_ending(asset: JsonView, suffix: Seq<char>)
    ensures
        fits_platform(asset, suffix) <==> text_field(asset, "name"@) is Some && exists|a: Seq<char>|
            text_field(asset, "name"@)->0 == #[trigger] (a + suffix),
        asset_suffix(true) == ".zip"@,
        asset_suffix(false) == ".tar.gz"@,
{
    if text_field(asset, "name"@) is Some {
        text::ends_by_parting(text_field(asset, "name"@)->0, suffix);
    }
}

/// A release is known where its version, its assets and one of them for the platform are; else
/// the first of these that is missing is told.
pub proof fn release_or_what_is_missing(json: JsonView, suffix: Seq<char>)
    ensures
        release_of(json, suffix) is Ok <==> text_field(json, "tag_name"@) is Some && list_field(
            json,
            "assets"@,
        ) is Some && asset_url(list_field(json, "assets"@)->0, suffix) is Some,
        release_of(json, suffix) matches Ok(r) ==> Some(r.version) == text_field(
            json,
            "tag_name"@,
        ) && Some(r.download_url) == asset_url(list_field(json, "assets"@)->0, suffix),
        text_field(json, "tag_name"@) is None ==> release_of(json, suffix) == Err::<
            ReleaseView,
            Seq<char>,
        >("Nelze přečíst verzi"@),
        text_field(json, "tag_name"@) is Some && list_field(json, "assets"@) is None ==> release_of(
            json,
            suffix,
        ) == Err::<ReleaseView, Seq<char>>("Žádné assets"@),
{
}

/// One look for updates at a time: while one is under way, asking again changes nothing; else it
/// is awaited, and a window once shown stays.
pub proof fn one_check_at_a_time(b: UpdateBoxView, show: bool)
    ensures
        b.state is Checking || b.state is Downloading ==> b.checking(show) == b,
        !(b.state is Checking || b.state is Downloading) ==> {
            &&& b.checking(show).state is Checking
            &&& b.checking(show).awaited
            &&& b.checking(show).show <==> b.show || show
        },
{
}

/// An answer is taken in once: afterwards none is awaited, and what is not awaited changes
/// nothing; a release that is not newer, or that could not be read, counts as up to date.
pub proof fn answer_is_taken_once(
    b: UpdateBoxView,
    reply: UpdateReply,
    later: UpdateReply,
    current: Seq<char>,
)
    ensures
        !b.awaited ==> b.polled(reply, current) == b,
        b.polled(UpdateReply::Nothing, current) == b,
        !(reply is Nothing) ==> !b.polled(reply, current).awaited,
        !(reply is Nothing) ==> b.polled(reply, current).polled(later, current) == b.polled(
            reply,
            current,
        ),
        b.awaited && reply is Lost ==> b.polled(reply, current).state is Idle,
        b.awaited && (reply matches UpdateReply::Came(Err(e))) ==> b.polled(reply, current).state
            is UpToDate && !b.polled(reply, current).show,
        b.awaited && (reply matches UpdateReply::Came(Ok(release)) && !newer(
            text::without_head(release.version@, 'v'),
            current,
        )) ==> b.polled(reply, current).state is UpToDate && b.polled(reply, current).show
            == b.show,
{
}

/// A newer release is offered with its version and address, and the window is shown.
pub proof fn offer_tells_the_release(
    b: UpdateBoxView,
    release: UpdateCheckResult,
    current: Seq<char>,
)
    requires
        b.awaited,
        newer(text::without_head(release.version@, 'v'), current),
    ensures
        b.polled(UpdateReply::Came(Ok(release)), current).state == (
        UpdateStateView::UpdateAvailable {
            version: release.version@,
            url: release.download_url@,
        }),
        b.polled(UpdateReply::Came(Ok(release)), current).show,
{
}

/// What cannot be read as a release is an error, told as such.
pub proof fn unreadable_reply_is_told(json: JsonView, suffix: Seq<char>, name: Seq<char>)
    ensures
        reply_of(None, suffix) == Err::<ReleaseView, Seq<char>>("error decoding response body"@),
        reply_of(Some(json), suffix) == release_of(json, suffix),
        !(json is Record) ==> text_field(json, name) is None && list_field(json, name) is None,
        json matches JsonView::Record(fields) ==> {
            &&& text_field(json, name) is Some <==> (field_in(fields, name) is Some && field_in(
                fields,
                name,
            )->0 is Text)
            &&& list_field(json, name) is Some <==> (field_in(fields, name) is Some && field_in(
                fields,
                name,
            )->0 is List)
        },
{
}

} // verus!
