use vstd::prelude::*;
use crate::text::str_eq;

verus! {

/// The channel that a notification is posted on, from the kind of room it
/// comes from and whether the user is mentioned: a mention always goes to
/// "mentions"; otherwise direct rooms go to "direct_messages", invites to
/// "invites" and every other room to "room_messages".
pub open spec fn channel_for(room_type: Seq<char>, has_mention: bool) -> Seq<char> {
    if has_mention {
        "mentions"@
    } else if room_type == "direct"@ {
        "direct_messages"@
    } else if room_type == "invite"@ {
        "invites"@
    } else {
        "room_messages"@
    }
}

/// Determines the notification channel based on room type and mention status.
pub fn determine_channel(room_type: &str, has_mention: bool) -> (channel: &'static str)
    ensures
        channel@ == channel_for(room_type@, has_mention),
{
    if has_mention {
        return "mentions";
    }
    if str_eq(room_type, "direct") {
        "direct_messages"
    } else if str_eq(room_type, "invite") {
        "invites"
    } else {
        "room_messages"
    }
}

/// Notification channel definitions.
pub struct NotificationChannel {
    pub id: &'static str,
    pub name: &'static str,
    pub description: &'static str,
    pub importance: &'static str,
}

impl NotificationChannel {
    /// The channel's four texts: id, name, description and importance.
    pub open spec fn texts(self) -> (Seq<char>, Seq<char>, Seq<char>, Seq<char>) {
        (self.id@, self.name@, self.description@, self.importance@)
    }
}

/// The channels that the application registers, in order: id, name,
/// description and importance of each.
pub open spec fn channel_table() -> Seq<(Seq<char>, Seq<char>, Seq<char>, Seq<char>)> {
    seq![
        ("direct_messages"@, "Direct Messages"@, "Notifications for direct messages"@, "high"@),
        ("mentions"@, "Mentions"@, "Notifications when you are mentioned"@, "high"@),
        ("room_messages"@, "Room Messages"@, "Notifications for room messages"@, "default"@),
        ("invites"@, "Room Invites"@, "Notifications for room invitations"@, "high"@),
        ("other"@, "Other"@, "Other notifications"@, "low"@),
    ]
}

/// Whether `id` is the id of one of the registered channels.
pub open spec fn is_channel_id(id: Seq<char>) -> bool {
    exists|i: int| 0 <= i < channel_table().len() && (#[trigger] channel_table()[i]).0 == id
}

/// The registered notification channels.
pub fn channels() -> (table: Vec<NotificationChannel>)
    ensures
        table@.map_values(|c: NotificationChannel| c.texts()) == channel_table(),
{
    let table = vec![
        NotificationChannel {
            id: "direct_messages",
            name: "Direct Messages",
            description: "Notifications for direct messages",
            importance: "high",
        },
        NotificationChannel {
            id: "mentions",
            name: "Mentions",
            description: "Notifications when you are mentioned",
            importance: "high",
        },
        NotificationChannel {
            id: "room_messages",
            name: "Room Messages",
            description: "Notifications for room messages",
            importance: "default",
        },
        NotificationChannel {
            id: "invites",
            name: "Room Invites",
            description: "Notifications for room invitations",
            importance: "high",
        },
        NotificationChannel {
            id: "other",
            name: "Other",
            description: "Other notifications",
            importance: "low",
        },
    ];
    assert(table@.map_values(|c: NotificationChannel| c.texts()) =~= channel_table());
    table
}

/// Every channel that `determine_channel` picks is one of the registered
/// channels, whatever the room type and mention status.
pub proof fn lemma_determined_channel_is_registered(room_type: Seq<char>, has_mention: bool)
    ensures
        is_channel_id(channel_for(room_type, has_mention)),
{
    let c = channel_for(room_type, has_mention);
    if has_mention {
        assert(channel_table()[1].0 == c);
    } else if room_type == "direct"@ {
        assert(channel_table()[0].0 == c);
    } else if room_type == "invite"@ {
        assert(channel_table()[3].0 == c);
    } else {
        assert(channel_table()[2].0 == c);
    }
}

/// A mention decides the channel alone: with a mention, every room type gets
/// the same channel.
pub proof fn lemma_mention_overrides_room_type(a: Seq<char>, b: Seq<char>)
    ensures
        channel_for(a, true) == channel_for(b, true),
        channel_for(a, true) == "mentions"@,
{
}

/// Without a mention, the room type alone decides: "direct" rooms go to
/// "direct_messages", "invite" rooms to "invites", and every other room type
/// to "room_messages"; with a mention every room type goes to "mentions".
pub proof fn lemma_channel_by_room_type(room_type: Seq<char>)
    ensures
        channel_for(room_type, true) == "mentions"@,
        room_type == "direct"@ ==> channel_for(room_type, false) == "direct_messages"@,
        room_type == "invite"@ ==> channel_for(room_type, false) == "invites"@,
        room_type != "direct"@ && room_type != "invite"@ ==> channel_for(room_type, false) == "room_messages"@,
{
    reveal_strlit("direct");
    reveal_strlit("invite");
    assert("direct"@.len() == 6 && "invite"@.len() == 6);
    assert("direct"@[0] != "invite"@[0]);
}

/// The registered channels, each with its four texts: direct messages,
/// mentions and invites alert with high importance, room messages with the
/// default importance, and the remaining channel with low importance.
pub proof fn lemma_registered_channels()
    ensures
        channel_table().len() == 5,
        channel_table()[0] == ("direct_messages"@, "Direct Messages"@, "Notifications for direct messages"@, "high"@),
        channel_table()[1] == ("mentions"@, "Mentions"@, "Notifications when you are mentioned"@, "high"@),
        channel_table()[2] == ("room_messages"@, "Room Messages"@, "Notifications for room messages"@, "default"@),
        channel_table()[3] == ("invites"@, "Room Invites"@, "Notifications for room invitations"@, "high"@),
        channel_table()[4] == ("other"@, "Other"@, "Other notifications"@, "low"@),
{
}

/// No two registered channels share an id.
pub proof fn lemma_channel_ids_distinct(i: int, j: int)
    requires
        0 <= i < channel_table().len(),
        0 <= j < channel_table().len(),
        i != j,
    ensures
        channel_table()[i].0 != channel_table()[j].0,
{
    reveal_strlit("direct_messages");
    reveal_strlit("mentions");
    reveal_strlit("room_messages");
    reveal_strlit("invites");
    reveal_strlit("other");
    let a = channel_table()[i].0;
    let b = channel_table()[j].0;
    if a == b {
        assert(a.len() == b.len());
        assert(a[0] == b[0]);
    }
}

} // verus!
