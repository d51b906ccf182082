use vstd::prelude::*;
use crate::json::{JsonValue, json_get, json_str, lemma_json_get, lemma_json_get_absent};
use crate::notification_channels::{channel_for, determine_channel, lemma_channel_by_room_type};
use crate::notification_state::{clone_text, NotificationData, NotificationState};
use crate::text::opt_text;

verus! {

/// The options that the web view sends with a notification.
#[derive(Debug)]
pub struct NotificationOptions {
    pub body: Option<String>,
    pub icon: Option<String>,
    pub tag: Option<String>,
    pub data: Option<JsonValue>,
    pub room_id: Option<String>,
    pub event_id: Option<String>,
    pub room_type: Option<String>,
    pub has_mention: Option<bool>,
}

/// The room a notification belongs to: the explicit `room_id` option if
/// given, else the string member "roomId" of the `data` object, else none.
pub open spec fn room_id_for(options: NotificationOptions) -> Option<Seq<char>> {
    match options.room_id {
        Some(r) => Some(r@),
        None => match options.data {
            Some(d) => match json_get(d, "roomId"@) {
                Some(v) => json_str(v),
                None => None,
            },
            None => None,
        },
    }
}

/// The channel for a notification's options: the room type defaults to
/// "room" and the mention flag to false.
pub open spec fn channel_of(options: NotificationOptions) -> Seq<char> {
    channel_for(
        match options.room_type {
            Some(t) => t@,
            None => "room"@,
        },
        match options.has_mention {
            Some(b) => b,
            None => false,
        },
    )
}

/// The group key under which notifications of one room are bundled.
pub open spec fn group_key(room_id: Seq<char>) -> Seq<char> {
    "cinny_room_"@ + room_id
}

/// The extra fields attached to a notification for click handling, in order:
/// the notification id, then the room id and the event id where known.
pub open spec fn extras_for(id: Seq<char>, room_id: Option<Seq<char>>, event_id: Option<Seq<char>>) -> Seq<(Seq<char>, Seq<char>)> {
    seq![("notification_id"@, id)] + match room_id {
        Some(r) => seq![("room_id"@, r)],
        None => Seq::empty(),
    } + match event_id {
        Some(e) => seq![("event_id"@, e)],
        None => Seq::empty(),
    }
}

/// The texts of a list of key and value pairs.
pub open spec fn pair_texts(pairs: Seq<(String, String)>) -> Seq<(Seq<char>, Seq<char>)> {
    pairs.map_values(|p: (String, String)| (p.0@, p.1@))
}

/// A notification to be displayed, as the notification plugin is to be told.
#[derive(Debug)]
pub struct NotificationRequest {
    pub title: String,
    pub body: String,
    pub large_body: String,
    pub group: Option<String>,
    pub sound: String,
    pub extras: Vec<(String, String)>,
    pub channel: &'static str,
}

/// Holds the store of shown notifications for the application.
pub struct NotificationManager {
    state: NotificationState,
}

impl View for NotificationManager {
    type V = Map<Seq<char>, NotificationData>;

    closed spec fn view(&self) -> Map<Seq<char>, NotificationData> {
        self.state@
    }
}

impl NotificationManager {
    /// The manager's invariant, that of its store.
    pub closed spec fn wf(self) -> bool {
        self.state.wf()
    }

    pub fn new() -> (manager: Self)
        ensures
            manager.wf(),
            manager@ == Map::<Seq<char>, NotificationData>::empty(),
    {
        NotificationManager { state: NotificationState::new() }
    }

    /// The store of shown notifications.
    pub fn state(&self) -> (state: &NotificationState)
        ensures
            state@ == self@,
            self.wf() ==> state.wf(),
    {
        &self.state
    }
}

/// Asks for permission to notify; the system handles the request, and the
/// answer is always "granted".
pub fn request_notification_permission() -> (answer: Result<String, String>)
    ensures
        answer matches Ok(s) && s@ == "granted"@,
{
    Ok(String::from_str("granted"))
}

/// The current permission to notify; always "granted".
pub fn get_notification_permission() -> (answer: Result<String, String>)
    ensures
        answer matches Ok(s) && s@ == "granted"@,
{
    Ok(String::from_str("granted"))
}

/// The room a notification belongs to; see `room_id_for`.
pub fn extract_room_id(options: &NotificationOptions) -> (room_id: Option<String>)
    ensures
        opt_text(room_id) == room_id_for(*options),
{
    if let Some(room_id) = &options.room_id {
        return Some(room_id.clone());
    }
    if let Some(data) = &options.data {
        if let Some(v) = data.get("roomId") {
            if let Some(room_id) = v.as_str() {
                return Some(String::from_str(room_id));
            }
        }
    }
    None
}

/// Records a notification in the manager's store and assembles what the
/// notification plugin is to show: `title` and `body`, the body again as the
/// expandable large body, the room's group key where the room is known, the
/// default sound, and the extras that a click on the notification reports
/// back.
pub fn show_notification(
    manager: &mut NotificationManager,
    id: String,
    title: String,
    body: String,
    options: NotificationOptions,
) -> (request: NotificationRequest)
    requires
        old(manager).wf(),
    ensures
        final(manager).wf(),
        final(manager)@ == old(manager)@.insert(id@, final(manager)@[id@]),
        final(manager)@[id@].id == id,
        opt_text(final(manager)@[id@].room_id) == room_id_for(options),
        final(manager)@[id@].event_id == options.event_id,
        final(manager)@[id@].tag == options.tag,
        request.title == title,
        request.body == body,
        request.large_body == body,
        opt_text(request.group) == (match room_id_for(options) {
            Some(r) => Some(group_key(r)),
            None => None,
        }),
        request.sound@ == "default"@,
        pair_texts(request.extras@) == extras_for(id@, room_id_for(options), opt_text(options.event_id)),
        request.channel@ == channel_of(options),
{
    let room_id = extract_room_id(&options);
    let event_id = clone_text(&options.event_id);

    let room_type = match &options.room_type {
        Some(t) => t.as_str(),
        None => "room",
    };
    let has_mention = match options.has_mention {
        Some(b) => b,
        None => false,
    };
    let channel = determine_channel(room_type, has_mention);

    manager.state.add(
        NotificationData {
            id: id.clone(),
            room_id: clone_text(&room_id),
            event_id: clone_text(&event_id),
            tag: clone_text(&options.tag),
        },
    );

    let group = match &room_id {
        Some(r) => {
            let mut key = String::from_str("cinny_room_");
            key.append(r.as_str());
            Some(key)
        },
        None => None,
    };

    let mut extras: Vec<(String, String)> = Vec::new();
    extras.push((String::from_str("notification_id"), id.clone()));
    if let Some(r) = &room_id {
        extras.push((String::from_str("room_id"), r.clone()));
    }
    if let Some(e) = &event_id {
        extras.push((String::from_str("event_id"), e.clone()));
    }
    assert(pair_texts(extras@) =~= extras_for(id@, opt_text(room_id), opt_text(event_id)));

    NotificationRequest {
        title,
        body: body.clone(),
        large_body: body,
        group,
        sound: String::from_str("default"),
        extras,
        channel,
    }
}

/// Forgets the notification `id`; closing one that is not shown does nothing.
pub fn close_notification(manager: &mut NotificationManager, id: String) -> (done: Result<(), String>)
    requires
        old(manager).wf(),
    ensures
        final(manager).wf(),
        final(manager)@ == old(manager)@.remove(id@),
        done == Ok::<(), String>(()),
{
    manager.state.remove(id.as_str());
    Ok(())
}

/// An explicit `room_id` option decides the room, whatever `data` holds.
pub proof fn lemma_explicit_room_id_wins(options: NotificationOptions, room_id: String)
    requires
        options.room_id == Some(room_id),
    ensures
        room_id_for(options) == Some(room_id@),
{
}

/// Without an explicit room id, the room is the text of the "roomId" member of
/// the `data` object, wherever that member stands among the others; there is
/// none when that member is not a string, when the object has no such member,
/// and when `data` is not an object or absent.
pub proof fn lemma_room_from_data(options: NotificationOptions, members: Vec<(String, JsonValue)>, i: int)
    requires
        options.room_id is None,
    ensures
        options.data is None ==> room_id_for(options) == None::<Seq<char>>,
        options.data matches Some(d) ==> room_id_for(options) == match json_get(d, "roomId"@) {
            Some(v) => json_str(v),
            None => None,
        },
        options.data matches Some(d) && !(d is Object) ==> room_id_for(options) == None::<Seq<char>>,
        options.data == Some(JsonValue::Object(members)) && 0 <= i < members@.len()
            && members@[i].0@ == "roomId"@
            && (forall|j: int| 0 <= j < i ==> (#[trigger] members@[j]).0@ != "roomId"@)
            ==> room_id_for(options) == match members@[i].1 {
                JsonValue::String(s) => Some(s@),
                _ => None,
            },
        options.data == Some(JsonValue::Object(members))
            && (forall|j: int| 0 <= j < members@.len() ==> (#[trigger] members@[j]).0@ != "roomId"@)
            ==> room_id_for(options) == None::<Seq<char>>,
{
    if options.data == Some(JsonValue::Object(members)) {
        if 0 <= i < members@.len() && members@[i].0@ == "roomId"@
            && (forall|j: int| 0 <= j < i ==> (#[trigger] members@[j]).0@ != "roomId"@) {
            lemma_json_get(members@, "roomId"@, i);
        }
        if forall|j: int| 0 <= j < members@.len() ==> (#[trigger] members@[j]).0@ != "roomId"@ {
            lemma_json_get_absent(members@, "roomId"@);
        }
    }
}

/// The channel of a notification is decided by its mention flag's value
/// (false when absent) and its room type ("room" when absent): a set flag
/// means "mentions"; otherwise a "direct" room gives "direct_messages", an
/// "invite" room "invites", and any other or absent room type
/// "room_messages". A flag that is present but false counts as no mention.
pub proof fn lemma_channel_of_options(options: NotificationOptions)
    ensures
        options.has_mention == Some(true) ==> channel_of(options) == "mentions"@,
        options.has_mention != Some(true) ==> channel_of(options) == channel_for(
            match options.room_type {
                Some(t) => t@,
                None => "room"@,
            },
            false,
        ),
        options.has_mention != Some(true) && (options.room_type matches Some(t) && t@ == "direct"@)
            ==> channel_of(options) == "direct_messages"@,
        options.has_mention != Some(true) && (options.room_type matches Some(t) && t@ == "invite"@)
            ==> channel_of(options) == "invites"@,
        options.has_mention != Some(true) && options.room_type is None ==> channel_of(options) == "room_messages"@,
{
    reveal_strlit("room");
    reveal_strlit("direct");
    reveal_strlit("invite");
    assert("room"@.len() != "direct"@.len());
    assert("room"@.len() != "invite"@.len());
    match options.room_type {
        Some(t) => lemma_channel_by_room_type(t@),
        None => lemma_channel_by_room_type("room"@),
    }
}

/// The extras always start with the notification id; the room id follows
/// exactly when the room is known, and the event id comes last exactly when
/// it is known, whether or not the room is.
pub proof fn lemma_extras(id: Seq<char>, room_id: Option<Seq<char>>, event_id: Option<Seq<char>>)
    ensures
        extras_for(id, room_id, event_id).len() == 1 + (if room_id is Some { 1int } else { 0int })
            + (if event_id is Some { 1int } else { 0int }),
        extras_for(id, room_id, event_id)[0] == ("notification_id"@, id),
        room_id matches Some(r) ==> extras_for(id, room_id, event_id)[1] == ("room_id"@, r),
        event_id matches Some(e) ==> extras_for(id, room_id, event_id).last() == ("event_id"@, e),
        event_id matches Some(e) ==> extras_for(id, None, event_id) == seq![("notification_id"@, id), ("event_id"@, e)],
        room_id matches Some(r) ==> extras_for(id, room_id, None) == seq![("notification_id"@, id), ("room_id"@, r)],
        extras_for(id, None, None) == seq![("notification_id"@, id)],
{
    if let Some(e) = event_id {
        assert(extras_for(id, None, event_id) =~= seq![("notification_id"@, id), ("event_id"@, e)]);
    }
    if let Some(r) = room_id {
        assert(extras_for(id, room_id, None) =~= seq![("notification_id"@, id), ("room_id"@, r)]);
    }
    assert(extras_for(id, None, None) =~= seq![("notification_id"@, id)]);
}

} // verus!
