//! Notification bookkeeping for the Cinny desktop and mobile shell: which
//! channel a message notification belongs to, the store of notifications that
//! are currently shown, how a notification request is assembled from the
//! options that the web view sends, and the calls made to the UnifiedPush
//! plugin.

pub mod text;
pub mod json;
pub mod notification_channels;
pub mod notification_state;
pub mod notifications;
pub mod unifiedpush;
