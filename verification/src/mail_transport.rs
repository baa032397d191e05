//! Mail account settings, polling intervals, and the texts and metadata that
//! the SMTP and IMAP exchanges are built from.
use vstd::prelude::*;
use crate::spec_types::{EnvelopeMetadata, FolderName};
use crate::text::{decimal, push_char, push_decimal};

verus! {

#[derive(Debug)]
pub struct MailAccount {
    pub email: String,
    pub display_name: String,
    pub smtp_host: String,
    pub smtp_port: u16,
    pub imap_host: String,
    pub imap_port: u16,
    pub username: String,
    pub password: String,
    pub inbox_folder: String,
}

#[derive(Debug, Clone, Copy)]
pub struct PollConfig {
    pub idle_supported: bool,
    pub foreground_interval_seconds: i64,
    pub background_interval_seconds: i64,
}

impl Default for PollConfig {
    /// IDLE supported, polling every 30 seconds in the foreground and every 5 minutes in the background.
    fn default() -> (r: Self)
        ensures
            r.idle_supported,
            r.foreground_interval_seconds == 30,
            r.background_interval_seconds == 300,
    {
        PollConfig { idle_supported: true, foreground_interval_seconds: 30, background_interval_seconds: 300 }
    }
}

/// The polling interval in seconds: the foreground one while the app is in
/// the foreground, the background one otherwise.
pub fn idle_or_poll_hint(config: &PollConfig, foreground: bool) -> (r: i64)
    ensures
        r == if foreground {
            config.foreground_interval_seconds
        } else {
            config.background_interval_seconds
        },
{
    if foreground {
        config.foreground_interval_seconds
    } else {
        config.background_interval_seconds
    }
}

/// The sender mailbox of outgoing mail: `display name <address>`.
pub open spec fn sender_mailbox_text(display_name: Seq<char>, email: Seq<char>) -> Seq<char> {
    display_name + seq![' ', '<'] + email + seq!['>']
}

/// The sender mailbox of an account's outgoing mail.
pub fn sender_mailbox(account: &MailAccount) -> (r: String)
    ensures
        r@ == sender_mailbox_text(account.display_name@, account.email@),
{
    let mut s = String::from_str(account.display_name.as_str());
    push_char(&mut s, ' ');
    push_char(&mut s, '<');
    s.append(account.email.as_str());
    push_char(&mut s, '>');
    s
}

/// The first UID after the cursor, saturating at the largest UID.
pub open spec fn first_new_uid(last_uid: u32) -> nat {
    if last_uid == u32::MAX {
        u32::MAX as nat
    } else {
        (last_uid + 1) as nat
    }
}

/// The IMAP UID search range for everything after the cursor: `N:*`.
pub fn uid_search_range(last_uid: u32) -> (r: String)
    ensures
        r@ == decimal(first_new_uid(last_uid)) + seq![':', '*'],
{
    let mut s = String::new();
    push_decimal(&mut s, last_uid.saturating_add(1) as u64);
    push_char(&mut s, ':');
    push_char(&mut s, '*');
    s
}

/// The metadata of a message fetched from the inbox by UID: transport id
/// `uid-N`, empty subject.
pub fn metadata_for_uid(uid: u32) -> (r: EnvelopeMetadata)
    ensures
        r.transport_message_id@ == seq!['u', 'i', 'd', '-'] + decimal(uid as nat),
        r.transport_subject@ == Seq::<char>::empty(),
        r.mailbox_uid == uid,
        r.folder == FolderName::Inbox,
{
    let mut id = String::new();
    push_char(&mut id, 'u');
    push_char(&mut id, 'i');
    push_char(&mut id, 'd');
    push_char(&mut id, '-');
    push_decimal(&mut id, uid as u64);
    EnvelopeMetadata {
        transport_message_id: id,
        transport_subject: String::new(),
        mailbox_uid: uid,
        folder: FolderName::Inbox,
    }
}

} // verus!
