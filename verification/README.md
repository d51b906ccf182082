# cinny

Notification bookkeeping for the Cinny shell, verified with Verus.

- `src/notification_channels.rs`: the channel a notification is posted on, and the table of registered channels.
- `src/notification_state.rs`: the store of shown notifications, viewed as a map from id to notification.
- `src/notifications.rs`: the notification commands' logic: which room a notification belongs to, what is recorded, and what the notification plugin is told to show.
- `src/json.rs`: the JSON value that a notification's `data` carries.
- `src/unifiedpush.rs`: the UnifiedPush plugin methods and the answers where no plugin is present.
- `app/`: the Tauri application around the library (commands, plugins, windows).
