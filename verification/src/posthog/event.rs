//! The one payload both the queue and the flush path build: a `PostHog`
//! capture event, and the batch request body that carries a run of them.

use serde_json::Value;

use crate::json;
use crate::text;

use vstd::prelude::*;
use vstd::string::{StrSliceExecFns, StringExecFns};

verus! {

/// The plugin's own name, as `PostHog`'s `$lib` property expects it.
pub const LIB_NAME: &'static str = "tauri-plugin-posthog-anon";

/// The longest event name `PostHog` will see from this plugin, in characters.
/// Not a `PostHog`-imposed limit, just a sanity bound against accidental
/// payloads.
pub const MAX_EVENT_NAME_LEN: usize = 200;

/// Event names `PostHog` treats as tying an install to a person.
pub open spec fn is_identity_event(name: Seq<char>) -> bool {
    ||| name == "$identify"@
    ||| name == "$create_alias"@
    ||| name == "$merge_dangerously"@
    ||| name == "$groupidentify"@
}

/// Properties `PostHog` reads as person or group data, whatever the event.
pub open spec fn is_identity_property(key: Seq<char>) -> bool {
    ||| key == "$set"@
    ||| key == "$set_once"@
    ||| key == "$unset"@
    ||| key == "$groups"@
    ||| key == "$anon_distinct_id"@
}

/// Whether `name` may name an event: trimmed, it is not empty, not longer than
/// [`MAX_EVENT_NAME_LEN`], and not one of `PostHog`'s identity events.
pub open spec fn is_event_name(name: Seq<char>) -> bool {
    let name = text::trimmed(name);
    &&& 0 < name.len() <= MAX_EVENT_NAME_LEN
    &&& !is_identity_event(name)
}

/// The form of a random (version 4) UUID in text: 32 lowercase hexadecimal
/// digits in groups of 8, 4, 4, 4 and 12, the third group starting with the
/// version and the fourth with the variant.
pub open spec fn is_v4_uuid(id: Seq<char>) -> bool {
    &&& id.len() == 36
    &&& forall|i: int|
        0 <= i < 36 ==> if i == 8 || i == 13 || i == 18 || i == 23 {
            #[trigger] id[i] == '-'
        } else {
            ('0' <= id[i] <= '9') || ('a' <= id[i] <= 'f')
        }
    &&& id[14] == '4'
    &&& id[19] == '8' || id[19] == '9' || id[19] == 'a' || id[19] == 'b'
}

/// The form of a moment in UTC by RFC 3339: `2024-01-31T23:59:59`, then maybe a
/// point and more digits for the fraction of a second, then `Z`.
pub open spec fn is_utc_timestamp(moment: Seq<char>) -> bool {
    let n = moment.len() as int;
    &&& n == 20 || n > 21 && moment[19] == '.'
    &&& moment[n - 1] == 'Z'
    &&& forall|i: int|
        0 <= i < n - 1 && i != 19 ==> if i == 4 || i == 7 {
            #[trigger] moment[i] == '-'
        } else if i == 10 {
            moment[i] == 'T'
        } else if i == 13 || i == 16 {
            moment[i] == ':'
        } else {
            '0' <= moment[i] <= '9'
        }
}

/// A single analytics event, queued until it is flushed. Carries its own
/// identity (`uuid`) and the moment it happened (`timestamp`) so that queuing
/// and retrying never changes either.
pub struct Event {
    pub uuid: String,
    pub event: String,
    pub timestamp: String,
    pub properties: serde_json::Map<String, Value>,
}

/// What an event says.
#[verifier::ext_equal]
pub struct EventView {
    pub uuid: Seq<char>,
    pub event: Seq<char>,
    pub timestamp: Seq<char>,
    pub properties: Map<Seq<char>, Value>,
}

impl View for Event {
    type V = EventView;

    open spec fn view(&self) -> EventView {
        EventView {
            uuid: self.uuid@,
            event: self.event@,
            timestamp: self.timestamp@,
            properties: json::entries(self.properties),
        }
    }
}

impl Clone for Event {
    fn clone(&self) -> (r: Self)
        ensures
            r@ == self@,
            r.uuid@ == self.uuid@,
            r.event@ == self.event@,
            r.timestamp@ == self.timestamp@,
            json::entries(r.properties) == json::entries(self.properties),
    {
        Event {
            uuid: self.uuid.clone(),
            event: self.event.clone(),
            timestamp: self.timestamp.clone(),
            properties: json::copy(&self.properties),
        }
    }
}

/// What the plugin knows about the install and the app, independent of any
/// single event: who (anonymously) is sending, and from where.
pub struct Base {
    pub distinct_id: String,
    pub lib_version: &'static str,
    pub app_version: String,
    pub os: &'static str,
    pub platform: &'static str,
}

/// `Uuid::new_v4` in its hyphenated lowercase text. Which one it is, is left to
/// chance; every one of them has the form of a version 4 UUID.
#[verifier::external_body]
pub(crate) fn fresh_uuid() -> (id: String)
    ensures
        is_v4_uuid(id@),
{
    uuid::Uuid::new_v4().to_string()
}

/// `OffsetDateTime::now_utc`, formatted by `Rfc3339`; nothing where the year
/// does not fit that format. Which moment it is, is left to the clock; each is
/// written in UTC.
#[verifier::external_body]
fn utc_timestamp() -> (moment: Option<String>)
    ensures
        moment matches Some(m) ==> is_utc_timestamp(m@),
{
    time::OffsetDateTime::now_utc()
        .format(&time::format_description::well_known::Rfc3339)
        .ok()
}

/// Whether `id` is one that was drawn.
pub closed spec fn is_drawn(id: String) -> bool {
    call_ensures(fresh_uuid, (), id)
}

/// Whether `moment` is what the clock gave.
pub closed spec fn is_clock_answer(moment: Option<String>) -> bool {
    call_ensures(utc_timestamp, (), moment)
}

/// A fresh random UUID, as text.
#[must_use]
pub fn new_uuid() -> (id: String)
    ensures
        is_drawn(id),
        is_v4_uuid(id@),
{
    fresh_uuid()
}

/// The current time in UTC, if it can be written down.
#[must_use]
pub fn current_timestamp() -> (moment: Option<String>)
    ensures
        is_clock_answer(moment),
        moment matches Some(m) ==> is_utc_timestamp(m@),
{
    utc_timestamp()
}

/// Whether `name` is one of `PostHog`'s identity events.
fn names_a_person(name: &str) -> (r: bool)
    ensures
        r == is_identity_event(name@),
{
    text::same(name, "$identify") || text::same(name, "$create_alias") || text::same(
        name,
        "$merge_dangerously",
    ) || text::same(name, "$groupidentify")
}

/// `name` trimmed, if it may name an event.
fn event_name(name: &str) -> (r: Option<&str>)
    ensures
        r is Some <==> is_event_name(name@),
        r matches Some(trimmed) ==> trimmed@ == text::trimmed(name@),
{
    let name = text::trim(name);
    if name.unicode_len() == 0 || name.unicode_len() > MAX_EVENT_NAME_LEN || names_a_person(name) {
        None
    } else {
        Some(name)
    }
}

/// Whether `key` is a property that would build a person or a group.
fn builds_a_person(key: &str) -> (r: bool)
    ensures
        r == is_identity_property(key@),
{
    text::same(key, "$set") || text::same(key, "$set_once") || text::same(key, "$unset")
        || text::same(key, "$groups") || text::same(key, "$anon_distinct_id")
}

impl Event {
    /// Builds an event stamped with a fresh v4 UUID and the current UTC time.
    /// Returns `None` when `name`, trimmed, is empty or longer than
    /// [`MAX_EVENT_NAME_LEN`] — callers pass event names as literals or simple
    /// identifiers, never free text, so this is a sanity check, not validation
    /// of user input — or is one of `PostHog`'s identity events, which would
    /// undo the anonymity; or, which no real clock does, when the time cannot
    /// be formatted.
    #[must_use]
    pub fn new(name: &str, properties: serde_json::Map<String, Value>) -> (r: Option<Event>)
        ensures
            !is_event_name(name@) ==> r is None,
            r matches Some(e) ==> {
                &&& is_event_name(name@)
                &&& e.event@ == text::trimmed(name@)
                &&& e.properties == properties
                &&& is_v4_uuid(e.uuid@)
                &&& is_utc_timestamp(e.timestamp@)
                &&& call_ensures(new_uuid, (), e.uuid)
                &&& call_ensures(current_timestamp, (), Some(e.timestamp))
            },
            ({
                let name = text::trimmed(name@);
                &&& 1 <= name.len() <= 200
                &&& name != "$identify"@
                &&& name != "$create_alias"@
                &&& name != "$merge_dangerously"@
                &&& name != "$groupidentify"@
            }) ==> exists|moment: Option<String>|
                {
                    &&& #[trigger] call_ensures(current_timestamp, (), moment)
                    &&& r is Some <==> moment is Some
                },
            r is None ==> ({
                let name = text::trimmed(name@);
                ||| name.len() == 0
                ||| name.len() > 200
                ||| name == "$identify"@
                ||| name == "$create_alias"@
                ||| name == "$merge_dangerously"@
                ||| name == "$groupidentify"@
                ||| call_ensures(current_timestamp, (), None::<String>)
            }),
    {
        if event_name(name).is_none() {
            return None;
        }
        match current_timestamp() {
            Some(timestamp) => Event::stamped(name, properties, new_uuid(), Some(timestamp)),
            None => None,
        }
    }

    /// The event `name` with `properties`, stamped with `uuid` and with
    /// `timestamp`, if there is one.
    #[must_use]
    pub fn stamped(
        name: &str,
        properties: serde_json::Map<String, Value>,
        uuid: String,
        timestamp: Option<String>,
    ) -> (r: Option<Event>)
        ensures
            r is Some <==> is_event_name(name@) && timestamp is Some,
            r is Some <==> ({
                let name = text::trimmed(name@);
                &&& timestamp is Some
                &&& 1 <= name.len() <= 200
                &&& name != "$identify"@
                &&& name != "$create_alias"@
                &&& name != "$merge_dangerously"@
                &&& name != "$groupidentify"@
            }),
            r matches Some(e) ==> {
                &&& e.event@ == text::trimmed(name@)
                &&& e.uuid == uuid
                &&& Some(e.timestamp) == timestamp
                &&& e.properties == properties
            },
    {
        match (event_name(name), timestamp) {
            (Some(name), Some(timestamp)) => Some(
                Event { uuid, event: name.to_owned(), timestamp, properties },
            ),
            _ => None,
        }
    }

    /// The event with what `base` knows merged into its properties, so that it
    /// keeps saying where it was captured however long it waits.
    #[must_use]
    pub fn captured_with(self, base: &Base) -> (r: Event)
        ensures
            r@ == captured(*base, self@),
            r.uuid@ == self.uuid@,
            r.event@ == self.event@,
            r.timestamp@ == self.timestamp@,
            json::entries(r.properties) == merged(*base, json::entries(self.properties)),
    {
        let properties = merged_properties(base, &self);
        Event { uuid: self.uuid, event: self.event, timestamp: self.timestamp, properties }
    }
}

/// What `base` alone says of an event.
pub open spec fn base_properties(base: Base) -> Map<Seq<char>, Value> {
    Map::<Seq<char>, Value>::empty()
        .insert("distinct_id"@, json::string_value(base.distinct_id@))
        .insert("$lib"@, json::string_value(LIB_NAME@))
        .insert("$lib_version"@, json::string_value(base.lib_version@))
        .insert("$app_version"@, json::string_value(base.app_version@))
        .insert("$os"@, json::string_value(base.os@))
        .insert("platform"@, json::string_value(base.platform@))
        .insert("$process_person_profile"@, json::bool_value(false))
}

/// The caller's properties less any that would build a person.
pub open spec fn impersonal(own: Map<Seq<char>, Value>) -> Map<Seq<char>, Value> {
    own.restrict(Set::new(|key: Seq<char>| !is_identity_property(key)))
}

/// `base`'s properties, then the caller's own, then who is sending and that no
/// profile is to be built, which nothing overrides.
pub open spec fn merged(base: Base, own: Map<Seq<char>, Value>) -> Map<Seq<char>, Value> {
    base_properties(base).union_prefer_right(impersonal(own))
        .insert("distinct_id"@, json::string_value(base.distinct_id@))
        .insert("$process_person_profile"@, json::bool_value(false))
}

/// The event as it is queued: its own, with `base` merged in.
pub open spec fn captured(base: Base, event: EventView) -> EventView {
    EventView { properties: merged(base, event.properties), ..event }
}

/// Whether `key` is among the items from the `from`th on, and not one that
/// would build a person.
spec fn taken_over(items: Seq<(String, Value)>, from: int, key: Seq<char>) -> bool {
    !is_identity_property(key) && exists|j: int|
        from <= j < items.len() && (#[trigger] items[j]).0@ == key
}

/// Merges an event's properties onto `base`'s the way [`batch_body`] promises:
/// base properties first, then the caller's own (which may shadow most of
/// them) less any that would build a person, then `distinct_id` and
/// `$process_person_profile` re-asserted so neither can be overridden.
pub fn merged_properties(base: &Base, event: &Event) -> (r: serde_json::Map<String, Value>)
    ensures
        json::entries(r) == merged(*base, event@.properties),
        json::entries(r) == merged(*base, json::entries(event.properties)),
{
    let mut properties = json::empty_object();
    json::insert(&mut properties, "distinct_id".to_owned(), json::string(base.distinct_id.as_str()));
    json::insert(&mut properties, "$lib".to_owned(), json::string(LIB_NAME));
    json::insert(&mut properties, "$lib_version".to_owned(), json::string(base.lib_version));
    json::insert(&mut properties, "$app_version".to_owned(), json::string(base.app_version.as_str()));
    json::insert(&mut properties, "$os".to_owned(), json::string(base.os));
    json::insert(&mut properties, "platform".to_owned(), json::string(base.platform));
    json::insert(&mut properties, "$process_person_profile".to_owned(), json::boolean(false));

    let ghost fixed = json::entries(properties);
    assert(fixed == base_properties(*base));
    let ghost own = json::entries(event.properties);
    let mut items = json::items(&event.properties);
    let ghost all = items@;
    while items.len() > 0
        invariant
            items@ == all.take(items@.len() as int),
            items@.len() <= all.len(),
            own == json::entries(event.properties),
            forall|j: int|
                0 <= j < all.len() ==> own.contains_key((#[trigger] all[j]).0@)
                    && own[all[j].0@] == all[j].1,
            forall|key: Seq<char>| #[trigger]
                json::entries(properties).contains_key(key) <==> fixed.contains_key(key)
                    || taken_over(all, items@.len() as int, key),
            forall|key: Seq<char>| #[trigger]
                json::entries(properties).contains_key(key) ==> json::entries(properties)[key]
                    == if taken_over(all, items@.len() as int, key) {
                    own[key]
                } else {
                    fixed[key]
                },
        decreases items@.len(),
    {
        let (key, value) = items.pop().unwrap();
        let ghost n = items@.len() as int;
        assert(all[n] == (key, value));
        if !builds_a_person(key.as_str()) {
            json::insert(&mut properties, key, value);
        }
        assert forall|k: Seq<char>| #[trigger] taken_over(all, n, k) == (taken_over(all, n + 1, k) || (
        !is_identity_property(k) && k == all[n].0@)) by {
            if taken_over(all, n, k) && !taken_over(all, n + 1, k) {
                let j = choose|j: int| n <= j < all.len() && (#[trigger] all[j]).0@ == k;
                assert(j == n);
            }
        }
    }
    assert(json::entries(properties) =~= fixed.union_prefer_right(impersonal(own)));

    json::insert(&mut properties, "distinct_id".to_owned(), json::string(base.distinct_id.as_str()));
    json::insert(&mut properties, "$process_person_profile".to_owned(), json::boolean(false));
    properties
}

/// One event as a `/batch` request carries it.
pub open spec fn event_value(base: Base, event: EventView) -> Value {
    json::object_value(
        Map::<Seq<char>, Value>::empty()
            .insert("event"@, json::string_value(event.event))
            .insert("uuid"@, json::string_value(event.uuid))
            .insert("timestamp"@, json::string_value(event.timestamp))
            .insert("properties"@, json::object_value(merged(base, event.properties))),
    )
}

/// What each event says.
pub open spec fn views(events: Seq<Event>) -> Seq<EventView> {
    events.map_values(|event: Event| event@)
}

/// The `/batch` request body for `events`, in their order.
pub open spec fn batch_value(api_key: Seq<char>, base: Base, events: Seq<EventView>) -> Value {
    json::object_value(
        Map::<Seq<char>, Value>::empty()
            .insert("api_key"@, json::string_value(api_key))
            .insert("batch"@, json::array_value(
            events.map_values(|event: EventView| event_value(base, event)),
        )),
    )
}

/// Builds a `PostHog` `/batch` request body for `events`, keyed to `api_key`.
/// Each event's properties are `base`'s properties, then the event's own,
/// then `distinct_id` and `$process_person_profile: false` re-asserted last
/// — so a caller can add its own properties, or even shadow most of the
/// plugin's, but never unmask the anonymous install or opt an event into
/// person profiles. A captured event already has `base` merged in, so the
/// capture-time values win here; merging again only fills in events queued
/// before that.
#[must_use]
pub fn batch_body(api_key: &str, base: &Base, events: &[Event]) -> (body: Value)
    ensures
        body == batch_value(api_key@, *base, views(events@)),
        exists|batch: Seq<Value>|
            {
                &&& body == #[trigger] json::object_value(
                    Map::<Seq<char>, Value>::empty().insert(
                        "api_key"@,
                        json::string_value(api_key@),
                    ).insert("batch"@, json::array_value(batch)),
                )
                &&& batch.len() == events@.len()
                &&& forall|i: int|
                    0 <= i < batch.len() ==> #[trigger] batch[i] == json::object_value(
                        Map::<Seq<char>, Value>::empty().insert(
                            "event"@,
                            json::string_value(events@[i].event@),
                        ).insert("uuid"@, json::string_value(events@[i].uuid@)).insert(
                            "timestamp"@,
                            json::string_value(events@[i].timestamp@),
                        ).insert(
                            "properties"@,
                            json::object_value(
                                merged(*base, json::entries(events@[i].properties)),
                            ),
                        ),
                    )
            },
{
    let mut batch: Vec<Value> = Vec::new();
    let mut i: usize = 0;
    while i < events.len()
        invariant
            i <= events.len(),
            batch@ == views(events@.take(i as int)).map_values(
                |event: EventView| event_value(*base, event),
            ),
        decreases events.len() - i,
    {
        let event = &events[i];
        let mut fields = json::empty_object();
        json::insert(&mut fields, "event".to_owned(), json::string(event.event.as_str()));
        json::insert(&mut fields, "uuid".to_owned(), json::string(event.uuid.as_str()));
        json::insert(&mut fields, "timestamp".to_owned(), json::string(event.timestamp.as_str()));
        json::insert(
            &mut fields,
            "properties".to_owned(),
            json::object(merged_properties(base, event)),
        );
        batch.push(json::object(fields));
        i += 1;
        assert(views(events@.take(i as int)) =~= views(events@.take(i - 1)).push(event@));
    }
    assert(events@.take(i as int) =~= events@);

    let ghost carried = batch@;
    let mut body = json::empty_object();
    json::insert(&mut body, "api_key".to_owned(), json::string(api_key));
    json::insert(&mut body, "batch".to_owned(), json::array(batch));
    let body = json::object(body);
    assert(body == json::object_value(
        Map::<Seq<char>, Value>::empty().insert("api_key"@, json::string_value(api_key@)).insert(
            "batch"@,
            json::array_value(carried),
        ),
    ));
    body
}

/// A request carries every event once, in its place, under its own name, uuid
/// and time and with its own properties: each as it would be carried alone,
/// whatever the others are.
pub proof fn law_every_event_is_carried_as_its_own(
    api_key: Seq<char>,
    base: Base,
    events: Seq<EventView>,
)
    ensures
        exists|batch: Seq<Value>|
            {
                &&& batch_value(api_key, base, events) == #[trigger] json::object_value(
                    Map::<Seq<char>, Value>::empty().insert(
                        "api_key"@,
                        json::string_value(api_key),
                    ).insert("batch"@, json::array_value(batch)),
                )
                &&& batch.len() == events.len()
                &&& forall|i: int|
                    0 <= i < batch.len() ==> #[trigger] batch[i] == json::object_value(
                        Map::<Seq<char>, Value>::empty().insert(
                            "event"@,
                            json::string_value(events[i].event),
                        ).insert("uuid"@, json::string_value(events[i].uuid)).insert(
                            "timestamp"@,
                            json::string_value(events[i].timestamp),
                        ).insert(
                            "properties"@,
                            json::object_value(merged(base, events[i].properties)),
                        ),
                    )
                &&& forall|i: int|
                    0 <= i < batch.len() ==> batch_value(api_key, base, seq![events[i]])
                        == json::object_value(
                        Map::<Seq<char>, Value>::empty().insert(
                            "api_key"@,
                            json::string_value(api_key),
                        ).insert("batch"@, json::array_value(seq![#[trigger] batch[i]])),
                    )
            },
{
    let batch = events.map_values(|event: EventView| event_value(base, event));
    assert(batch_value(api_key, base, events) == json::object_value(
        Map::<Seq<char>, Value>::empty().insert("api_key"@, json::string_value(api_key)).insert(
            "batch"@,
            json::array_value(batch),
        ),
    ));
    assert forall|i: int| 0 <= i < batch.len() implies batch_value(api_key, base, seq![events[i]])
        == json::object_value(
        Map::<Seq<char>, Value>::empty().insert("api_key"@, json::string_value(api_key)).insert(
            "batch"@,
            json::array_value(seq![#[trigger] batch[i]]),
        ),
    ) by {
        assert(seq![events[i]].map_values(|event: EventView| event_value(base, event))
            =~= seq![batch[i]]);
    }
}

/// Reveals the property names, so that they can be told apart.
proof fn lemma_property_names()
    ensures
        !is_identity_property("distinct_id"@),
        !is_identity_property("$process_person_profile"@),
        !is_identity_property("$lib"@),
        !is_identity_property("$lib_version"@),
        !is_identity_property("$app_version"@),
        !is_identity_property("$os"@),
        !is_identity_property("platform"@),
        "distinct_id"@ != "$process_person_profile"@,
{
    reveal_strlit("distinct_id");
    reveal_strlit("$process_person_profile");
    reveal_strlit("$lib");
    reveal_strlit("$lib_version");
    reveal_strlit("$app_version");
    reveal_strlit("$os");
    reveal_strlit("platform");
    reveal_strlit("$set");
    reveal_strlit("$set_once");
    reveal_strlit("$unset");
    reveal_strlit("$groups");
    reveal_strlit("$anon_distinct_id");
    assert("$set"@.len() == 4 && "$set_once"@.len() == 9 && "$unset"@.len() == 6);
    assert("$groups"@.len() == 7 && "$anon_distinct_id"@.len() == 17);
    assert("distinct_id"@.len() == 11 && "$process_person_profile"@.len() == 23);
    assert("$lib_version"@.len() == 12 && "$app_version"@.len() == 12);
    assert("$os"@.len() == 3 && "platform"@.len() == 8);
    assert("$lib"@[1] == 'l' && "$set"@[1] == 's');
}

/// Whatever the caller puts into an event, it is sent under the install's
/// anonymous id, asks for no person profile, and carries no property that
/// would build a person or a group.
pub proof fn law_every_event_is_anonymous(base: Base, own: Map<Seq<char>, Value>)
    ensures
        merged(base, own).contains_key("distinct_id"@),
        merged(base, own)["distinct_id"@] == json::string_value(base.distinct_id@),
        merged(base, own).contains_key("$process_person_profile"@),
        merged(base, own)["$process_person_profile"@] == json::bool_value(false),
        forall|key: Seq<char>|
            is_identity_property(key) ==> !#[trigger] merged(base, own).contains_key(key),
{
    lemma_property_names();
}

/// An event carries the seven properties of the plugin and the caller's own, less
/// the five that would build a person; and of each it is fixed who says it.
pub proof fn law_who_says_what_of_an_event(
    base: Base,
    own: Map<Seq<char>, Value>,
    key: Seq<char>,
)
    ensures
        merged(base, own).contains_key(key) <==> {
            ||| key == "distinct_id"@
            ||| key == "$process_person_profile"@
            ||| key == "$lib"@
            ||| key == "$lib_version"@
            ||| key == "$app_version"@
            ||| key == "$os"@
            ||| key == "platform"@
            ||| own.contains_key(key) && key != "$set"@ && key != "$set_once"@ && key != "$unset"@
                && key != "$groups"@ && key != "$anon_distinct_id"@
        },
        merged(base, own).contains_key(key) ==> merged(base, own)[key] == if key
            == "distinct_id"@ {
            json::string_value(base.distinct_id@)
        } else if key == "$process_person_profile"@ {
            json::bool_value(false)
        } else if own.contains_key(key) {
            own[key]
        } else if key == "$lib"@ {
            json::string_value("tauri-plugin-posthog-anon"@)
        } else if key == "$lib_version"@ {
            json::string_value(base.lib_version@)
        } else if key == "$app_version"@ {
            json::string_value(base.app_version@)
        } else if key == "$os"@ {
            json::string_value(base.os@)
        } else {
            json::string_value(base.platform@)
        },
{
    lemma_property_names();
    assert("$lib_version"@[1] == 'l' && "$app_version"@[1] == 'a') by {
        reveal_strlit("$lib_version");
        reveal_strlit("$app_version");
    }
    lemma_base_values(base);
}

/// A caller may add properties of its own, and shadow any of the plugin's but
/// the two that keep the event anonymous.
pub proof fn law_callers_own_properties_are_kept(
    base: Base,
    own: Map<Seq<char>, Value>,
    key: Seq<char>,
)
    requires
        own.contains_key(key),
        !is_identity_property(key),
        key != "distinct_id"@,
        key != "$process_person_profile"@,
    ensures
        merged(base, own).contains_key(key),
        merged(base, own)[key] == own[key],
{
}

/// An event says where it came from wherever the caller does not say otherwise,
/// and nothing is said that neither the plugin nor the caller said.
pub proof fn law_base_fills_in_the_rest(base: Base, own: Map<Seq<char>, Value>, key: Seq<char>)
    requires
        !own.contains_key(key),
    ensures
        merged(base, own).contains_key(key) <==> base_properties(base).contains_key(key),
        base_properties(base).contains_key(key) ==> merged(base, own)[key] == base_properties(
            base,
        )[key],
{
    lemma_base_values(base);
}

/// The two properties that are asserted last are base properties anyway, and no
/// two of the seven are the same.
proof fn lemma_base_values(base: Base)
    ensures
        "$lib"@.len() == 4,
        "$os"@.len() == 3,
        "platform"@.len() == 8,
        "distinct_id"@.len() == 11,
        "$process_person_profile"@.len() == 23,
        "$lib_version"@.len() == 12,
        "$app_version"@.len() == 12,
        base_properties(base).contains_key("distinct_id"@),
        base_properties(base)["distinct_id"@] == json::string_value(base.distinct_id@),
        base_properties(base).contains_key("$process_person_profile"@),
        base_properties(base)["$process_person_profile"@] == json::bool_value(false),
{
    reveal_strlit("distinct_id");
    reveal_strlit("$process_person_profile");
    reveal_strlit("$lib");
    reveal_strlit("$lib_version");
    reveal_strlit("$app_version");
    reveal_strlit("$os");
    reveal_strlit("platform");
    assert("distinct_id"@.len() == 11 && "$process_person_profile"@.len() == 23);
    assert("$lib_version"@.len() == 12 && "$app_version"@.len() == 12);
    assert("$lib"@.len() == 4 && "$os"@.len() == 3 && "platform"@.len() == 8);
}

/// An event that was captured under one base and is sent under another keeps
/// what it said when it was captured; only the install's id is the sender's.
pub proof fn law_capture_time_values_win(
    at_capture: Base,
    at_flush: Base,
    own: Map<Seq<char>, Value>,
)
    ensures
        merged(at_flush, merged(at_capture, own)) == merged(at_capture, own).insert(
            "distinct_id"@,
            json::string_value(at_flush.distinct_id@),
        ),
{
    lemma_property_names();
    law_every_event_is_anonymous(at_capture, own);
    let once = merged(at_capture, own);
    let twice = merged(at_flush, once);
    assert forall|key: Seq<char>| base_properties(at_flush).contains_key(key) implies #[trigger] once.contains_key(key) by {
        assert(base_properties(at_capture).contains_key(key));
    }
    assert(twice =~= once.insert("distinct_id"@, json::string_value(at_flush.distinct_id@)));
}

/// Merging the same base in again changes nothing.
pub proof fn law_merging_again_changes_nothing(base: Base, own: Map<Seq<char>, Value>)
    ensures
        merged(base, merged(base, own)) == merged(base, own),
{
    law_capture_time_values_win(base, base, own);
    law_every_event_is_anonymous(base, own);
    assert(merged(base, own).insert("distinct_id"@, json::string_value(base.distinct_id@))
        =~= merged(base, own));
}

} // verus!
