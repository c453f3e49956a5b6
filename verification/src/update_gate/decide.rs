//! The update gate's decision: given the document and the running version,
//! whether the running copy may still be used. There is no reason to touch the
//! network or the filesystem for it.

use crate::text;
use crate::update_gate::version;
use crate::update_gate::version::{parse, precedes, Version};

use vstd::hash_map::StringHashMap;
use vstd::prelude::*;

verus! {

/// The document as read from the update server: every field is optional so a
/// document the app doesn't fully recognise yet still opens the update gate.
pub struct Document {
    pub min_version: Option<String>,
    pub latest_version: Option<String>,
    pub message: StringHashMap<String>,
    pub url: StringHashMap<Option<String>>,
    /// Versions one platform holds apart from the rest. The stores release on
    /// different days: the floor can rise everywhere while iOS still waits in
    /// review. A `null` entry is the same as none.
    pub platforms: StringHashMap<Option<Override>>,
}

/// One platform's own versions. A field it leaves out comes from the top level.
pub struct Override {
    pub min_version: Option<String>,
    pub latest_version: Option<String>,
}

/// What an override says.
#[verifier::ext_equal]
pub struct OverrideView {
    pub min_version: Option<Seq<char>>,
    pub latest_version: Option<Seq<char>>,
}

impl View for Override {
    type V = OverrideView;

    open spec fn view(&self) -> OverrideView {
        OverrideView {
            min_version: text::opt_text(self.min_version),
            latest_version: text::opt_text(self.latest_version),
        }
    }
}

/// What a document says.
#[verifier::ext_equal]
pub struct DocumentView {
    pub min_version: Option<Seq<char>>,
    pub latest_version: Option<Seq<char>>,
    pub message: Map<Seq<char>, Seq<char>>,
    pub url: Map<Seq<char>, Option<Seq<char>>>,
    pub platforms: Map<Seq<char>, Option<OverrideView>>,
}

impl View for Document {
    type V = DocumentView;

    open spec fn view(&self) -> DocumentView {
        DocumentView {
            min_version: text::opt_text(self.min_version),
            latest_version: text::opt_text(self.latest_version),
            message: self.message@.map_values(|m: String| m@),
            url: self.url@.map_values(|u: Option<String>| text::opt_text(u)),
            platforms: self.platforms@.map_values(
                |o: Option<Override>|
                    match o {
                        Some(o) => Some(o@),
                        None => None,
                    },
            ),
        }
    }
}

/// A document that says nothing.
pub open spec fn empty_document() -> DocumentView {
    DocumentView {
        min_version: None,
        latest_version: None,
        message: Map::empty(),
        url: Map::empty(),
        platforms: Map::empty(),
    }
}

impl Default for Document {
    fn default() -> (doc: Document)
        ensures
            doc@ == empty_document(),
    {
        let doc = Document {
            min_version: None,
            latest_version: None,
            message: StringHashMap::new(),
            url: StringHashMap::new(),
            platforms: StringHashMap::new(),
        };
        assert(doc@ =~= empty_document());
        doc
    }
}

impl Default for Override {
    fn default() -> (o: Override)
        ensures
            o.min_version is None,
            o.latest_version is None,
    {
        Override { min_version: None, latest_version: None }
    }
}

/// Where the running copy stands relative to the document's versions.
#[derive(Debug, Clone, Copy, PartialEq, Eq, Structural)]
pub enum State {
    /// Runs the latest known version, or newer.
    Okay,
    /// Runs an older version, but not below `minVersion`.
    Optional,
    /// Runs a version below `minVersion`.
    Forced,
}

/// The update gate's verdict.
#[derive(Debug)]
pub struct Gate {
    pub state: State,
    pub latest_version: Option<String>,
    pub message: Option<String>,
    pub url: Option<String>,
}

/// What a verdict says.
#[verifier::ext_equal]
pub struct GateView {
    pub state: State,
    pub latest_version: Option<Seq<char>>,
    pub message: Option<Seq<char>>,
    pub url: Option<Seq<char>>,
}

impl View for Gate {
    type V = GateView;

    open spec fn view(&self) -> GateView {
        GateView {
            state: self.state,
            latest_version: text::opt_text(self.latest_version),
            message: text::opt_text(self.message),
            url: text::opt_text(self.url),
        }
    }
}

/// What the platform holds apart from the rest, if anything.
pub open spec fn override_for(doc: DocumentView, platform: Seq<char>) -> OverrideView {
    if doc.platforms.contains_key(platform) && doc.platforms[platform] is Some {
        doc.platforms[platform]->0
    } else {
        OverrideView { min_version: None, latest_version: None }
    }
}

/// The first of two that is there.
pub open spec fn first_of(a: Option<Seq<char>>, b: Option<Seq<char>>) -> Option<Seq<char>> {
    if a is Some {
        a
    } else {
        b
    }
}

/// The floor that holds on the platform.
pub open spec fn min_for(doc: DocumentView, platform: Seq<char>) -> Option<Seq<char>> {
    first_of(override_for(doc, platform).min_version, doc.min_version)
}

/// The newest version on the platform.
pub open spec fn latest_for(doc: DocumentView, platform: Seq<char>) -> Option<Seq<char>> {
    first_of(override_for(doc, platform).latest_version, doc.latest_version)
}

/// Left out, or a version.
pub open spec fn is_readable(field: Option<Seq<char>>) -> bool {
    field matches Some(t) ==> version::parsed_version(t) is Some
}

/// The version a field holds, if any.
pub open spec fn version_in(field: Option<Seq<char>>) -> Option<version::VersionView> {
    match field {
        Some(t) => version::parsed_version(t),
        None => None,
    }
}

/// Whether every version that the decision needs can be read.
pub open spec fn is_gate_readable(
    doc: DocumentView,
    running: Seq<char>,
    platform: Seq<char>,
) -> bool {
    &&& version::parsed_version(running) is Some
    &&& is_readable(min_for(doc, platform))
    &&& is_readable(latest_for(doc, platform))
}

/// Where `running` stands: below the floor, below the newest, or neither.
pub open spec fn standing(
    running: version::VersionView,
    min: Option<version::VersionView>,
    latest: Option<version::VersionView>,
) -> State {
    if min matches Some(min) && version::is_older(running, min) {
        State::Forced
    } else if latest matches Some(latest) && version::is_older(running, latest) {
        State::Optional
    } else {
        State::Okay
    }
}

/// How hard a state is on the running copy.
pub open spec fn hardness(state: State) -> int {
    match state {
        State::Okay => 0,
        State::Optional => 1,
        State::Forced => 2,
    }
}

/// Whether one verdict is no harder than another, and says the same beside.
pub open spec fn is_no_harder(gate: GateView, other: GateView) -> bool {
    &&& hardness(gate.state) <= hardness(other.state)
    &&& gate.latest_version == other.latest_version
    &&& gate.message == other.message
    &&& gate.url == other.url
}

/// Whether `newer` is a version that can be ordered, and is not older than
/// `running`.
pub open spec fn is_at_least(newer: version::VersionView, running: version::VersionView) -> bool {
    version::is_orderable(newer) && !version::is_older(newer, running)
}

/// What is said in the language, or else in English.
pub open spec fn message_for(doc: DocumentView, lang: Seq<char>) -> Option<Seq<char>> {
    if doc.message.contains_key(lang) {
        Some(doc.message[lang])
    } else if doc.message.contains_key("en"@) {
        Some(doc.message["en"@])
    } else {
        None
    }
}

/// Where the platform's copy is had, if anywhere.
pub open spec fn url_for(doc: DocumentView, platform: Seq<char>) -> Option<Seq<char>> {
    if doc.url.contains_key(platform) {
        doc.url[platform]
    } else {
        None
    }
}

/// The update gate for a running version. It is open, and says only what the
/// newest version is, where a version cannot be read.
pub open spec fn gate_for(
    doc: DocumentView,
    running: Seq<char>,
    lang: Seq<char>,
    platform: Seq<char>,
) -> GateView {
    if is_gate_readable(doc, running, platform) {
        GateView {
            state: standing(
                version::parsed_version(running)->0,
                version_in(min_for(doc, platform)),
                version_in(latest_for(doc, platform)),
            ),
            latest_version: latest_for(doc, platform),
            message: message_for(doc, lang),
            url: url_for(doc, platform),
        }
    } else {
        GateView {
            state: State::Okay,
            latest_version: latest_for(doc, platform),
            message: None,
            url: None,
        }
    }
}

/// What an optional version says.
pub open spec fn opt_version(v: Option<Version>) -> Option<version::VersionView> {
    match v {
        Some(v) => Some(v@),
        None => None,
    }
}

/// Where `running` stands against the floor and the newest version, where there
/// are such. Numbers decide first; a pre-release is older than its release; a
/// newer version never stands worse.
#[must_use]
pub fn judge(running: &Version, min: &Option<Version>, latest: &Option<Version>) -> (state: State)
    ensures
        state == standing(running@, opt_version(*min), opt_version(*latest)),
        state == State::Forced <==> (min matches Some(m) && version::version_order(running@, m@)
            == Some(true)),
        state == State::Optional <==> state != State::Forced && (latest matches Some(l)
            && version::version_order(running@, l@) == Some(true)),
        min matches Some(m) ==> version::is_orderable(running@) && version::is_orderable(m@) ==> {
            &&& version::has_lower_numbers(running@, m@) ==> state == State::Forced
            &&& version::is_prerelease_of(running@, m@) ==> state == State::Forced
            &&& version::has_lower_numbers(m@, running@) ==> state != State::Forced
            &&& version::is_prerelease_of(m@, running@) ==> state != State::Forced
            &&& running@ == m@ ==> state != State::Forced
        },
        latest matches Some(l) ==> version::is_orderable(running@) && version::is_orderable(l@) ==> {
            &&& version::has_lower_numbers(running@, l@) ==> state != State::Okay
            &&& version::is_prerelease_of(running@, l@) ==> state != State::Okay
            &&& version::has_lower_numbers(l@, running@) ==> state != State::Optional
            &&& version::is_prerelease_of(l@, running@) ==> state != State::Optional
            &&& running@ == l@ ==> state != State::Optional
        },
        version::is_orderable(running@) && (min matches Some(m) ==> version::is_orderable(m@)) && (
        latest matches Some(l) ==> version::is_orderable(l@)) ==> forall|newer: version::VersionView|
            is_at_least(newer, running@) ==> hardness(
                #[trigger] standing(newer, opt_version(*min), opt_version(*latest)),
            ) <= hardness(state),
{
    let mut below_latest = false;
    if let Some(latest) = latest {
        if let Some(older) = precedes(running, latest) {
            below_latest = older;
        }
    }
    if let Some(min) = min {
        if let Some(older) = precedes(running, min) {
            if older {
                return State::Forced;
            }
        }
    }
    if below_latest {
        State::Optional
    } else {
        State::Okay
    }
}

/// The version a field holds: nothing where it cannot be read, and no version
/// where it was left out.
fn read_version(field: &Option<String>) -> (r: Option<Option<Version>>)
    ensures
        r is Some <==> is_readable(text::opt_text(*field)),
        r matches Some(v) ==> {
            &&& opt_version(v) == version_in(text::opt_text(*field))
            &&& v matches Some(v) ==> version::is_orderable(v@)
        },
{
    match field {
        None => Some(None),
        Some(t) => match parse(t.as_str()) {
            Some(v) => Some(Some(v)),
            None => None,
        },
    }
}

/// The first of two fields that is there.
fn own_or_top(own: &Option<String>, top: &Option<String>) -> (r: Option<String>)
    ensures
        text::opt_text(r) == first_of(text::opt_text(*own), text::opt_text(*top)),
{
    match own {
        Some(t) => Some(t.clone()),
        None => match top {
            Some(t) => Some(t.clone()),
            None => None,
        },
    }
}

/// Decides whether `running` may still be used, against `doc`. Fails open: a
/// document field that doesn't parse as a version opens the update gate rather
/// than being grounds to lock someone out, because a malformed document is a
/// server mistake, not the running app's fault.
#[must_use]
pub fn decide(doc: &Document, running: &str, lang: &str, platform: &str) -> (gate: Gate)
    ensures
        gate@ == gate_for(doc@, running@, lang@, platform@),
        ({
            let own = if doc.platforms@.contains_key(platform@) {
                doc.platforms@[platform@]
            } else {
                None
            };
            let min = if own is Some && own->0.min_version is Some {
                own->0.min_version
            } else {
                doc.min_version
            };
            let latest = if own is Some && own->0.latest_version is Some {
                own->0.latest_version
            } else {
                doc.latest_version
            };
            let readable = {
                &&& version::parsed_version(running@) is Some
                &&& min is Some ==> version::parsed_version(min->0@) is Some
                &&& latest is Some ==> version::parsed_version(latest->0@) is Some
            };
            &&& gate.latest_version is Some <==> latest is Some
            &&& latest is Some ==> gate.latest_version->0@ == latest->0@
            &&& gate.state == State::Forced <==> readable && min is Some && version::version_order(
                version::parsed_version(running@)->0,
                version::parsed_version(min->0@)->0,
            ) == Some(true)
            &&& gate.state == State::Optional <==> readable && gate.state != State::Forced
                && latest is Some && version::version_order(
                version::parsed_version(running@)->0,
                version::parsed_version(latest->0@)->0,
            ) == Some(true)
            &&& readable ==> {
                &&& doc.message@.contains_key(lang@) ==> gate.message is Some && gate.message->0@
                    == doc.message@[lang@]@
                &&& !doc.message@.contains_key(lang@) && doc.message@.contains_key("en"@)
                    ==> gate.message is Some && gate.message->0@ == doc.message@["en"@]@
                &&& !doc.message@.contains_key(lang@) && !doc.message@.contains_key("en"@)
                    ==> gate.message is None
                &&& gate.url is Some <==> doc.url@.contains_key(platform@)
                    && doc.url@[platform@] is Some
                &&& gate.url is Some ==> gate.url->0@ == doc.url@[platform@]->0@
            }
            &&& !readable ==> gate.message is None && gate.url is None
        }),
        is_gate_readable(doc@, running@, platform@) ==> (version_in(
            min_for(doc@, platform@),
        ) matches Some(min) ==> {
            let running = version::parsed_version(running@)->0;
            &&& version::has_lower_numbers(running, min) ==> gate.state == State::Forced
            &&& version::is_prerelease_of(running, min) ==> gate.state == State::Forced
            &&& version::has_lower_numbers(min, running) ==> gate.state != State::Forced
            &&& version::is_prerelease_of(min, running) ==> gate.state != State::Forced
            &&& running == min ==> gate.state != State::Forced
        }),
        is_gate_readable(doc@, running@, platform@) ==> (version_in(
            latest_for(doc@, platform@),
        ) matches Some(latest) ==> {
            let running = version::parsed_version(running@)->0;
            &&& version::has_lower_numbers(running, latest) ==> gate.state != State::Okay
            &&& version::is_prerelease_of(running, latest) ==> gate.state != State::Okay
            &&& version::has_lower_numbers(latest, running) ==> gate.state != State::Optional
            &&& version::is_prerelease_of(latest, running) ==> gate.state != State::Optional
            &&& running == latest ==> gate.state != State::Optional
        }),
        version::parsed_version(running@) matches Some(own) ==> {
            &&& version::is_orderable(own)
            &&& forall|newer: Seq<char>|
                (version::parsed_version(newer) matches Some(v) && is_at_least(v, own))
                    ==> is_no_harder(
                    #[trigger] gate_for(doc@, newer, lang@, platform@),
                    gate@,
                )
        },
{
    let none: Option<String> = None;
    let (min_version, latest_version) = match doc.platforms.get(platform) {
        Some(Some(own)) => (
            own_or_top(&own.min_version, &doc.min_version),
            own_or_top(&own.latest_version, &doc.latest_version),
        ),
        _ => (
            own_or_top(&none, &doc.min_version),
            own_or_top(&none, &doc.latest_version),
        ),
    };
    assert(text::opt_text(min_version) == min_for(doc@, platform@));
    assert(text::opt_text(latest_version) == latest_for(doc@, platform@));

    let state = match (parse(running), read_version(&min_version), read_version(&latest_version)) {
        (Some(running), Some(min), Some(latest)) => judge(&running, &min, &latest),
        _ => {
            return Gate { state: State::Okay, latest_version, message: None, url: None };
        },
    };

    let message = match doc.message.get(lang) {
        Some(message) => Some(message.clone()),
        None => match doc.message.get("en") {
            Some(message) => Some(message.clone()),
            None => None,
        },
    };
    let url = match doc.url.get(platform) {
        Some(Some(url)) => Some(url.clone()),
        _ => None,
    };
    Gate { state, latest_version, message, url }
}

/// A gate that cannot be read is open: a running version, a floor or a newest
/// version that does not parse never locks anyone out, and says nothing but the
/// newest version as it stands.
pub proof fn law_the_gate_fails_open(
    doc: DocumentView,
    running: Seq<char>,
    lang: Seq<char>,
    platform: Seq<char>,
)
    requires
        version::parsed_version(running) is None || !is_readable(min_for(doc, platform))
            || !is_readable(latest_for(doc, platform)),
    ensures
        gate_for(doc, running, lang, platform) == (GateView {
            state: State::Okay,
            latest_version: latest_for(doc, platform),
            message: None,
            url: None,
        }),
{
}

/// A copy is locked out only below a floor that can be read, and it is offered
/// an update only below a newest version that can be read, and not below the
/// floor.
pub proof fn law_who_is_locked_out_and_who_is_offered_an_update(
    doc: DocumentView,
    running: Seq<char>,
    lang: Seq<char>,
    platform: Seq<char>,
)
    ensures
        ({
            let state = gate_for(doc, running, lang, platform).state;
            let below_min = version_in(min_for(doc, platform)) matches Some(min)
                && version::is_older(version::parsed_version(running)->0, min);
            let below_latest = version_in(latest_for(doc, platform)) matches Some(latest)
                && version::is_older(version::parsed_version(running)->0, latest);
            &&& state == State::Forced <==> is_gate_readable(doc, running, platform) && below_min
            &&& state == State::Optional <==> is_gate_readable(doc, running, platform) && !below_min
                && below_latest
        }),
{
}

/// A newer copy is never held up harder than an older one, and is told the same
/// newest version, message and URL: that semver's order is total is all it takes.
/// [`decide`] says the same of its own verdict.
pub proof fn law_a_newer_copy_is_never_held_up_harder(
    doc: DocumentView,
    older: Seq<char>,
    newer: Seq<char>,
    lang: Seq<char>,
    platform: Seq<char>,
)
    requires
        version::is_totally_ordered(),
        version::parsed_version(older) is Some,
        version::parsed_version(newer) is Some,
        !version::is_older(version::parsed_version(newer)->0, version::parsed_version(older)->0),
    ensures
        is_no_harder(
            gate_for(doc, newer, lang, platform),
            gate_for(doc, older, lang, platform),
        ),
{
}

/// A document that says nothing opens the update gate for every version, with
/// nothing to show.
pub proof fn law_an_empty_document_opens_the_gate(
    running: Seq<char>,
    lang: Seq<char>,
    platform: Seq<char>,
)
    ensures
        gate_for(empty_document(), running, lang, platform) == (GateView {
            state: State::Okay,
            latest_version: None,
            message: None,
            url: None,
        }),
{
}

/// What one platform holds apart changes nothing on any other, be it readable
/// or not.
pub proof fn law_an_override_stays_on_its_platform(
    doc: DocumentView,
    own: Option<OverrideView>,
    elsewhere: Seq<char>,
    running: Seq<char>,
    lang: Seq<char>,
    platform: Seq<char>,
)
    requires
        elsewhere != platform,
    ensures
        gate_for(
            DocumentView { platforms: doc.platforms.insert(elsewhere, own), ..doc },
            running,
            lang,
            platform,
        ) == gate_for(doc, running, lang, platform),
{
}

/// A platform's own field wins, and a field it leaves out comes from the top
/// level: the verdict is that of a document with those versions at its top level
/// and no overrides.
pub proof fn law_an_override_replaces_the_top_level_field_by_field(
    doc: DocumentView,
    running: Seq<char>,
    lang: Seq<char>,
    platform: Seq<char>,
)
    ensures
        gate_for(doc, running, lang, platform) == gate_for(
            DocumentView {
                min_version: min_for(doc, platform),
                latest_version: latest_for(doc, platform),
                platforms: Map::empty(),
                ..doc
            },
            running,
            lang,
            platform,
        ),
{
}

/// A `null` override and an empty one are the same as none.
pub proof fn law_a_null_or_empty_override_is_none(
    doc: DocumentView,
    own: Option<OverrideView>,
    running: Seq<char>,
    lang: Seq<char>,
    platform: Seq<char>,
)
    requires
        own matches Some(o) ==> o.min_version is None && o.latest_version is None,
    ensures
        gate_for(
            DocumentView { platforms: doc.platforms.insert(platform, own), ..doc },
            running,
            lang,
            platform,
        ) == gate_for(
            DocumentView { platforms: doc.platforms.remove(platform), ..doc },
            running,
            lang,
            platform,
        ),
{
}

/// The language decides nothing but the message, which is the English one where
/// the document does not have the language.
pub proof fn law_a_missing_language_reads_as_english(
    doc: DocumentView,
    running: Seq<char>,
    lang: Seq<char>,
    platform: Seq<char>,
)
    requires
        !doc.message.contains_key(lang),
    ensures
        gate_for(doc, running, lang, platform) == gate_for(doc, running, "en"@, platform),
{
}

/// Where every version can be read, the message is the document's own in the
/// language, or else its English one, or else none: whatever the versions, the
/// platform and its download link are. The link is the platform's own, whatever
/// the language.
pub proof fn law_the_message_and_the_link_are_the_documents_own(
    doc: DocumentView,
    running: Seq<char>,
    lang: Seq<char>,
    platform: Seq<char>,
)
    requires
        version::parsed_version(running) is Some,
        min_for(doc, platform) matches Some(t) ==> version::parsed_version(t) is Some,
        latest_for(doc, platform) matches Some(t) ==> version::parsed_version(t) is Some,
    ensures
        ({
            let gate = gate_for(doc, running, lang, platform);
            &&& doc.message.contains_key(lang) ==> gate.message == Some(doc.message[lang])
            &&& !doc.message.contains_key(lang) && doc.message.contains_key("en"@) ==> gate.message
                == Some(doc.message["en"@])
            &&& !doc.message.contains_key(lang) && !doc.message.contains_key("en"@)
                ==> gate.message is None
            &&& gate.url == if doc.url.contains_key(platform) {
                doc.url[platform]
            } else {
                None
            }
        }),
{
}

/// Which versions hold on a platform: its own where it has them, each for
/// itself, and the top level's where it does not.
pub proof fn law_which_versions_hold_on_a_platform(doc: DocumentView, platform: Seq<char>)
    ensures
        !doc.platforms.contains_key(platform) || doc.platforms[platform] is None ==> {
            &&& min_for(doc, platform) == doc.min_version
            &&& latest_for(doc, platform) == doc.latest_version
        },
        doc.platforms.contains_key(platform) && doc.platforms[platform] is Some ==> {
            let own = doc.platforms[platform]->0;
            &&& own.min_version is Some ==> min_for(doc, platform) == own.min_version
            &&& own.min_version is None ==> min_for(doc, platform) == doc.min_version
            &&& own.latest_version is Some ==> latest_for(doc, platform) == own.latest_version
            &&& own.latest_version is None ==> latest_for(doc, platform) == doc.latest_version
        },
{
}

/// What a version is judged on is its place in semver's order alone: two
/// versions that come before the same floor and the same newest version are
/// given the same verdict.
pub proof fn law_equally_placed_versions_get_the_same_verdict(
    doc: DocumentView,
    one: Seq<char>,
    other: Seq<char>,
    lang: Seq<char>,
    platform: Seq<char>,
)
    requires
        version::parsed_version(one) is Some,
        version::parsed_version(other) is Some,
        forall|v: version::VersionView| #[trigger]
            version::version_order(version::parsed_version(one)->0, v) == version::version_order(
                version::parsed_version(other)->0,
                v,
            ),
    ensures
        gate_for(doc, one, lang, platform) == gate_for(doc, other, lang, platform),
{
    if let Some(min) = version_in(min_for(doc, platform)) {
        assert(version::version_order(version::parsed_version(one)->0, min)
            == version::version_order(version::parsed_version(other)->0, min));
    }
    if let Some(latest) = version_in(latest_for(doc, platform)) {
        assert(version::version_order(version::parsed_version(one)->0, latest)
            == version::version_order(version::parsed_version(other)->0, latest));
    }
}

} // verus!
