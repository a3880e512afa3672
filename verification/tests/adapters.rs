use messagehub_core::adapters::email::{
    check_addresses, fetch_range, judge_addresses, select_uids, uid_range, EmailAdapter,
    ImapSettings,
};
use messagehub_core::adapters::mail::{read_mail, read_mails, FetchedMail};
use messagehub_core::adapters::mail_shape::is_separable;
use messagehub_core::adapters::manager::{next_since, AdapterManager, SyncPlan};
use messagehub_core::adapters::mock::MockAdapter;
use messagehub_core::adapters::raw::latest_timestamp;
use messagehub_core::adapters::telegram::{
    fetch_messages, TelegramAdapter, TelegramChat, TelegramMessage, TelegramResponse,
    TelegramUpdate, TelegramUser,
};
use messagehub_core::adapters::{normalize, normalize_with_id, RawAttachment, RawMessage};
use messagehub_core::error::CoreError;
use messagehub_core::id::Uuid;
use messagehub_core::runtime::status::ChannelStatus;
use messagehub_core::text_map::TextMap;
use messagehub_core::time::Timestamp;
use messagehub_core::types::{Channel, ChannelConfig, MessageContent};

fn time(secs: i64) -> Timestamp {
    Timestamp::new(secs, 0).unwrap()
}

fn config(label: &str, keychain_ref: &str) -> ChannelConfig {
    ChannelConfig {
        id: Uuid::random(),
        channel: Channel::Email,
        label: label.to_string(),
        keychain_ref: keychain_ref.to_string(),
        enabled: true,
        poll_interval_secs: 30,
        last_sync_cursor: None,
        last_sync_at: None,
        status: ChannelStatus::Healthy,
        last_error: None,
        consecutive_failures: 0,
    }
}

fn content(text: Option<&str>, subject: Option<&str>) -> MessageContent {
    MessageContent {
        text: text.map(|s| s.to_string()),
        html: None,
        subject: subject.map(|s| s.to_string()),
        attachments: vec![],
    }
}

// --- mail ---

#[test]
fn test_email_adapter_channel_type() {
    let adapter = EmailAdapter::new();
    assert_eq!(adapter.channel_type(), Channel::Email);
}

#[test]
fn test_derive_settings_gmail() {
    let settings = EmailAdapter::derive_settings("user@gmail.com");
    assert_eq!(settings.host, "imap.gmail.com");
    assert_eq!(settings.port, 993);
    assert_eq!(settings.smtp_host, "smtp.gmail.com");
    assert_eq!(settings.smtp_port, 587);
}

#[test]
fn test_derive_settings_outlook() {
    let settings = EmailAdapter::derive_settings("user@outlook.com");
    assert_eq!(settings.host, "outlook.office365.com");
    assert_eq!(settings.smtp_host, "smtp.office365.com");
}

#[test]
fn test_derive_settings_custom_domain() {
    let settings = EmailAdapter::derive_settings("user@company.io");
    assert_eq!(settings.host, "imap.company.io");
    assert_eq!(settings.smtp_host, "smtp.company.io");
}

#[test]
fn derive_settings_without_a_domain() {
    assert_eq!(EmailAdapter::derive_settings("user").host, "imap.gmail.com");
    assert_eq!(EmailAdapter::derive_settings("user@").host, "imap.");
    assert_eq!(EmailAdapter::derive_settings("a@b@c").smtp_host, "smtp.b");
    assert_eq!(EmailAdapter::derive_settings("a@live.com").host, "outlook.office365.com");
    assert_eq!(EmailAdapter::derive_settings("a@googlemail.com").smtp_host, "smtp.gmail.com");
    assert_eq!(ImapSettings::default().host, "imap.gmail.com");
}

#[test]
fn test_connect_parses_credentials() {
    let mut adapter = EmailAdapter::new();
    let config = config("test@gmail.com", "test@gmail.com:app-password-123");
    adapter.connect(&config).unwrap();
    assert_eq!(adapter.username.as_deref(), Some("test@gmail.com"));
    assert_eq!(adapter.password.as_deref(), Some("app-password-123"));
    assert_eq!(adapter.imap_host.as_deref(), Some("imap.gmail.com"));
    assert!(adapter.connected);
}

#[test]
fn password_keeps_its_colons() {
    let mut adapter = EmailAdapter::new();
    adapter.connect(&config("test@gmail.com", "user:pass:word")).unwrap();
    assert_eq!(adapter.username.as_deref(), Some("user"));
    assert_eq!(adapter.password.as_deref(), Some("pass:word"));
}

#[test]
fn test_connect_rejects_bad_credentials_format() {
    let mut adapter = EmailAdapter::new();
    let result = adapter.connect(&config("test@gmail.com", "no-colon-here"));
    assert!(result.is_err());
    assert!(result.unwrap_err().message().contains("user:password"));
    assert!(!adapter.connected);
    assert_eq!(adapter.imap_host.as_deref(), Some("imap.gmail.com"));
}

#[test]
fn test_fetch_without_connect_fails() {
    let adapter = EmailAdapter::new();
    let result = adapter.fetch_plan(None);
    assert!(result.is_err());
    assert!(result.unwrap_err().message().contains("not connected"));
}

#[test]
fn fetch_plan_names_what_is_missing() {
    let mut adapter = EmailAdapter::new();
    adapter.connected = true;
    assert_eq!(
        adapter.fetch_plan(None).unwrap_err().message(),
        "connection error: IMAP host not set"
    );
    adapter.imap_host = Some("h".to_string());
    assert_eq!(
        adapter.fetch_plan(None).unwrap_err().message(),
        "connection error: username not set"
    );
    adapter.username = Some("u".to_string());
    assert_eq!(
        adapter.fetch_plan(None).unwrap_err().message(),
        "connection error: password not set"
    );
    adapter.password = Some("p".to_string());
    let plan = adapter.fetch_plan(None).unwrap();
    assert_eq!(plan.address, "h:993");
    assert_eq!(plan.search_query, "ALL");
    let plan = adapter.fetch_plan(Some(time(0))).unwrap();
    assert_eq!(plan.search_query, "SINCE 01-Jan-1970");
}

#[test]
fn email_test_disconnect_clears_state() {
    let mut adapter = EmailAdapter::new();
    adapter.username = Some("user".to_string());
    adapter.password = Some("pass".to_string());
    adapter.connected = true;
    adapter.disconnect().unwrap();
    assert!(adapter.username.is_none());
    assert!(adapter.password.is_none());
    assert!(!adapter.connected);
}

#[test]
fn test_with_settings() {
    let settings = ImapSettings {
        host: "mail.custom.com".to_string(),
        port: 143,
        smtp_host: "send.custom.com".to_string(),
        smtp_port: 25,
    };
    let adapter = EmailAdapter::with_settings(settings);
    assert_eq!(adapter.imap_host.as_deref(), Some("mail.custom.com"));
    assert_eq!(adapter.imap_port, 143);
    assert_eq!(adapter.smtp_host.as_deref(), Some("send.custom.com"));
    assert_eq!(adapter.smtp_port, 25);
}

#[test]
fn reply_plan_checks_in_order() {
    let mut adapter = EmailAdapter::new();
    let text = content(Some("hello"), None);
    assert_eq!(
        adapter.reply_plan(&text).unwrap_err().message(),
        "connection error: not connected"
    );
    adapter.connected = true;
    assert_eq!(
        adapter.reply_plan(&text).unwrap_err().message(),
        "connection error: SMTP host not set"
    );
    adapter.smtp_host = Some("s".to_string());
    assert_eq!(
        adapter.reply_plan(&text).unwrap_err().message(),
        "connection error: username not set"
    );
    adapter.username = Some("me@example.com".to_string());
    assert_eq!(
        adapter.reply_plan(&text).unwrap_err().message(),
        "connection error: password not set"
    );
    adapter.password = Some("p".to_string());
    assert_eq!(
        adapter.reply_plan(&content(None, None)).unwrap_err().message(),
        "invalid input: email body text is required"
    );
    let plan = adapter.reply_plan(&text).unwrap();
    assert_eq!(plan.subject, "Re:");
    assert_eq!(plan.text, "hello");
    let plan = adapter.reply_plan(&content(Some("x"), Some("Re: y"))).unwrap();
    assert_eq!(plan.subject, "Re: y");
}

#[test]
fn addresses_of_a_reply_are_checked() {
    assert!(check_addresses("me@example.com", "You <you@example.com>").is_ok());
    let bad_from = check_addresses("nobody", "you@example.com").unwrap_err().message();
    assert!(bad_from.starts_with("invalid input: invalid from address: "));
    let bad_to = check_addresses("me@example.com", "nobody").unwrap_err().message();
    assert!(bad_to.starts_with("invalid input: invalid to address: "));
    let both = judge_addresses(Some("a".to_string()), Some("b".to_string()));
    assert_eq!(both.unwrap_err().message(), "invalid input: invalid from address: a");
}

#[test]
fn the_newest_mails_are_fetched() {
    assert_eq!(select_uids(&vec![3, 9, 1]), vec![9, 3, 1]);
    assert_eq!(uid_range(&vec![9, 3, 1]), "9,3,1");
    assert_eq!(fetch_range(&vec![]), None);
    assert_eq!(fetch_range(&vec![3, 9, 1]).as_deref(), Some("9,3,1"));
    let many: Vec<u32> = (1..=150).collect();
    let newest = select_uids(&many);
    assert_eq!(newest.len(), 100);
    assert_eq!(newest[0], 150);
    assert_eq!(newest[99], 51);
}

const MAIL: &str = "From: Alice <alice@example.com>\r\n\
    Message-ID: <m3@example.com>\r\n\
    In-Reply-To: <m2@example.com>\r\n\
    References: <m1@example.com> <m2@example.com>\r\n\
    Subject: Hello\r\n\
    Date: Thu, 01 Jan 1970 00:00:10 +0000\r\n\
    Content-Type: text/plain\r\n\
    \r\n\
    Body text";

#[test]
fn a_mail_becomes_a_message() {
    let m = read_mail(MAIL.as_bytes(), Some(7), time(99)).unwrap();
    assert_eq!(m.external_id, "m3@example.com");
    assert_eq!(m.channel, Channel::Email);
    assert_eq!(m.sender_name, "Alice");
    assert_eq!(m.sender_address, "alice@example.com");
    assert_eq!(m.subject.as_deref(), Some("Hello"));
    assert_eq!(m.text.as_deref(), Some("Body text"));
    assert_eq!(m.timestamp, time(10));
    assert_eq!(m.external_thread_id.as_deref(), Some("m1@example.com"));
    assert_eq!(m.metadata.get("message_id"), Some("m3@example.com"));
    assert_eq!(m.metadata.get("in_reply_to"), Some("m2@example.com"));
    assert_eq!(m.metadata.get("references"), Some("m1@example.com m2@example.com"));
    assert_eq!(m.metadata.get("imap_uid"), Some("7"));
    assert!(m.attachments.is_empty());
}

#[test]
fn mails_with_the_same_root_share_their_thread() {
    let with = |headers: &str| {
        let mail = format!("Message-ID: <own@x.org>\r\n{}Subject: s\r\n\r\nbody", headers);
        read_mail(mail.as_bytes(), None, time(0)).unwrap().external_thread_id.unwrap()
    };
    let first = with("References: <root@x.org>\r\n");
    let second = with("In-Reply-To: <b@x.org>\r\nReferences: <root@x.org> <b@x.org>\r\n");
    assert_eq!(first, "root@x.org");
    assert_eq!(second, first);
    assert_eq!(with("In-Reply-To: <b@x.org>\r\n"), "b@x.org");
    assert_eq!(with(""), "own@x.org");
}

#[test]
fn a_mail_without_headers_gets_defaults() {
    let m = read_mail(b"Subject: x\r\n\r\nhi", None, time(99)).unwrap();
    assert_eq!(m.sender_name, "Unknown");
    assert_eq!(m.sender_address, "");
    assert_eq!(m.external_id, "");
    assert_eq!(m.external_thread_id.as_deref(), Some(""));
    assert_eq!(m.timestamp, time(99));
    assert_eq!(m.metadata.get("imap_uid"), None);
}

#[test]
fn attachments_of_a_mail_are_listed() {
    let mail = "From: a@example.com\r\n\
        MIME-Version: 1.0\r\n\
        Content-Type: multipart/mixed; boundary=\"b\"\r\n\
        \r\n\
        --b\r\n\
        Content-Type: text/plain\r\n\
        \r\n\
        text\r\n\
        --b\r\n\
        Content-Type: application/pdf; name=\"r.pdf\"\r\n\
        Content-Disposition: attachment; filename=\"r.pdf\"\r\n\
        \r\n\
        12345\r\n\
        --b--\r\n";
    let m = read_mail(mail.as_bytes(), None, time(0)).unwrap();
    assert_eq!(m.attachments.len(), 1);
    assert_eq!(m.attachments[0].filename, "r.pdf");
    assert_eq!(m.attachments[0].mime_type, "application/pdf");
    assert_eq!(m.attachments[0].size_bytes, 5);
}

#[test]
fn a_mail_that_holds_an_empty_mail_is_read() {
    let m = read_mail(b"Content-Type: message/rfc822\r\n\r\n", None, time(3)).unwrap();
    assert_eq!(m.sender_name, "Unknown");
    assert_eq!(m.timestamp, time(3));
    assert_eq!(m.attachments.len(), 1);
    assert_eq!(m.attachments[0].mime_type, "message/rfc822");
    assert_eq!(m.attachments[0].size_bytes, 0);
}

#[test]
fn a_mail_within_a_mail_is_as_long_as_its_bytes() {
    let inner = "Subject: inner\r\n\r\nhello";
    let mail = format!(
        "Content-Type: multipart/mixed; boundary=\"b\"\r\n\r\n--b\r\n\
         Content-Type: text/plain\r\n\r\ntext\r\n--b\r\n\
         Content-Type: message/rfc822\r\n\r\n{}\r\n--b--\r\n",
        inner
    );
    let m = read_mail(mail.as_bytes(), None, time(0)).unwrap();
    assert_eq!(m.attachments.len(), 1);
    assert_eq!(m.attachments[0].size_bytes, inner.len() as u64);
}

#[test]
fn alternatives_in_turn_are_read() {
    let part = |kind: &str, text: &str| format!("--i\r\nContent-Type: {}\r\n\r\n{}\r\n", kind, text);
    let alternative =
        |parts: String| format!("--o\r\nContent-Type: multipart/alternative; boundary=i\r\n\r\n{}--i--\r\n", parts);
    let html = part("text/html", "<p>h</p>");
    let plain = part("text/plain", "first");
    let mail = format!(
        "Subject: s\r\nContent-Type: multipart/mixed; boundary=o\r\n\r\n{}{}--o--\r\n",
        alternative(format!("{}{}{}{}", html, html, html, plain)),
        alternative(part("text/plain", "second"))
    );
    let m = read_mail(mail.as_bytes(), None, time(0)).unwrap();
    assert_eq!(m.subject.as_deref(), Some("s"));
    assert_eq!(m.text.as_deref(), Some("first"));
    assert_eq!(m.html.as_deref(), Some("<p>h</p>"));
}

/// A mail with one quoted-printable part.
fn quoted_mail(part: &str) -> String {
    format!(
        "Subject: s\r\nContent-Type: multipart/mixed; boundary=b\r\n\r\n\
         --b\r\nContent-Type: text/plain\r\n\
         Content-Transfer-Encoding: quoted-printable\r\n\r\n{}\r\n--b--\r\n",
        part
    )
}

#[test]
fn a_quoted_part_is_decoded() {
    for (part, text) in [
        ("caf=C3=A9", "caf\u{e9}"),
        ("abc=", "a"),
        ("long=\r\n line", "long line"),
    ] {
        let mail = quoted_mail(part);
        assert!(is_separable(mail.as_bytes()));
        let m = read_mail(mail.as_bytes(), None, time(0)).unwrap();
        assert_eq!(m.text.as_deref(), Some(text));
    }
}

#[test]
fn of_a_mail_that_cannot_be_taken_apart_the_headers_are_read() {
    let nested = "Subject: s\r\nContent-Type: multipart/mixed; boundary=b\r\n\r\n\
        --b\r\nContent-Type: Message/RFC822\r\n\
        Content-Transfer-Encoding: base64\r\n\r\nU3ViamVjdDogeA==\r\n--b--\r\n";
    for mail in [
        quoted_mail("="),
        quoted_mail("a="),
        quoted_mail("=41=\r\n= "),
        nested.to_string(),
        nested.replace("Message/RFC822", "message (old) / (new) \"global\""),
        nested.replace("base64", "=?utf-8?b?YmFzZTY0?="),
        nested.replace("Message/RFC822", "text/plain").replace("mixed", "digest"),
        format!("Subject: s\r\n{}", "Content-Type: message/rfc822\r\n\r\n".repeat(101)),
    ] {
        assert!(!is_separable(mail.as_bytes()), "{}", mail);
        let m = read_mail(mail.as_bytes(), Some(4), time(3)).unwrap();
        assert_eq!(m.subject.as_deref(), Some("s"));
        assert_eq!(m.text, None);
        assert_eq!(m.html, None);
        assert!(m.attachments.is_empty());
    }
}

#[test]
fn a_hundred_mails_can_stand_in_one_another() {
    let mail = format!("Subject: s\r\n{}", "Content-Type: message/rfc822\r\n\r\n".repeat(100));
    assert!(is_separable(mail.as_bytes()));
    let m = read_mail(mail.as_bytes(), None, time(0)).unwrap();
    assert_eq!(m.attachments.len(), 1);
}

#[test]
fn mails_with_encoded_files_can_be_taken_apart() {
    let mail = "Subject: global\r\nOriginal-Recipient: rfc822;a@example.com\r\n\
        Content-Type: multipart/mixed; boundary=b\r\n\r\n\
        --b\r\nContent-Type: message/rfc822\r\n\r\n\
        Subject: inner\r\nContent-Transfer-Encoding: quoted-printable\r\n\r\nx=3Dy\r\n\
        --b\r\nContent-Type: application/pdf\r\n\
        Content-Transfer-Encoding: base64\r\n\r\nZw==\r\n--b\r\n\
        Content-Type: application/pdf\r\n\
        Content-Transfer-Encoding: base64\r\n\r\nZ2c=\r\n--b--\r\n";
    assert!(is_separable(mail.as_bytes()));
    let m = read_mail(mail.as_bytes(), None, time(0)).unwrap();
    let sizes: Vec<u64> = m.attachments.iter().map(|a| a.size_bytes).collect();
    assert_eq!(sizes.len(), 3);
    assert_eq!(sizes[1..], [1, 2]);
}

#[test]
fn mails_without_a_body_are_left_out() {
    let fetched = vec![
        FetchedMail { uid: Some(1), body: None },
        FetchedMail { uid: Some(2), body: Some(MAIL.as_bytes().to_vec()) },
    ];
    let messages = read_mails(&fetched, time(0));
    assert_eq!(messages.len(), 1);
    assert_eq!(messages[0].metadata.get("imap_uid"), Some("2"));
}

// --- Telegram ---

#[test]
fn test_telegram_adapter_channel_type() {
    let adapter = TelegramAdapter::new();
    assert_eq!(adapter.channel_type(), Channel::Telegram);
}

#[test]
fn test_api_url_without_token() {
    let adapter = TelegramAdapter::new();
    let result = adapter.api_url("getMe");
    assert!(result.is_err());
}

#[test]
fn test_api_url_with_token() {
    let mut adapter = TelegramAdapter::new();
    adapter.bot_token = Some("123:ABC".to_string());
    let url = adapter.api_url("getMe").unwrap();
    assert_eq!(url, "https://api.telegram.org/bot123:ABC/getMe");
}

#[test]
fn telegram_test_disconnect_clears_state() {
    let mut adapter = TelegramAdapter::new();
    adapter.bot_token = Some("token".to_string());
    adapter.last_update_id = Some(42);
    adapter.disconnect().unwrap();
    assert!(adapter.bot_token.is_none());
    assert!(adapter.last_update_id.is_none());
}

#[test]
fn test_send_reply_requires_text() {
    let mut adapter = TelegramAdapter::new();
    adapter.bot_token = Some("fake-token".to_string());
    let content = MessageContent { text: None, html: None, subject: None, attachments: vec![] };
    let result = adapter.reply_plan(&content);
    assert!(result.is_err());
    let err = result.unwrap_err().message();
    assert!(err.contains("text is required"));
}

#[test]
fn telegram_reply_needs_a_token_first() {
    let adapter = TelegramAdapter::new();
    let err = adapter.reply_plan(&content(None, None)).unwrap_err().message();
    assert_eq!(err, "connection error: not connected: no bot token");
}

#[test]
fn telegram_reply_goes_to_send_message() {
    let mut adapter = TelegramAdapter::new();
    assert_eq!(adapter.begin_connect("t").unwrap(), "https://api.telegram.org/bott/getMe");
    let (url, text) = adapter.reply_plan(&content(Some("hi"), None)).unwrap();
    assert_eq!(url, "https://api.telegram.org/bott/sendMessage");
    assert_eq!(text, "hi");
    assert!(TelegramAdapter::check_sent(true, &None).is_ok());
    let err = TelegramAdapter::check_sent(false, &Some("blocked".to_string())).unwrap_err();
    assert_eq!(err.message(), "channel error: sendMessage failed: blocked");
}

fn user() -> TelegramUser {
    TelegramUser {
        id: 77,
        is_bot: false,
        first_name: "Ada".to_string(),
        last_name: Some("Lovelace".to_string()),
        username: None,
    }
}

#[test]
fn telegram_token_is_judged_by_the_answer() {
    let ok = TelegramResponse { ok: true, result: Some(user()), description: None };
    assert_eq!(TelegramAdapter::check_me(ok).unwrap().id, 77);
    let none = TelegramResponse { ok: true, result: None, description: None };
    assert_eq!(
        TelegramAdapter::check_me(none).unwrap_err().message(),
        "auth error: Telegram getMe returned no result"
    );
    let bad = TelegramResponse {
        ok: false,
        result: None,
        description: Some("Unauthorized".to_string()),
    };
    assert_eq!(
        TelegramAdapter::check_me(bad).unwrap_err().message(),
        "auth error: Telegram getMe failed: Unauthorized"
    );
}

#[test]
fn telegram_asks_for_what_comes_after_the_last_update() {
    let mut adapter = TelegramAdapter::new();
    assert_eq!(adapter.fetch_params().len(), 2);
    adapter.last_update_id = Some(41);
    let params = adapter.fetch_params();
    assert_eq!(params[0], ("timeout".to_string(), "5".to_string()));
    assert_eq!(params[1], ("allowed_updates".to_string(), "[\"message\"]".to_string()));
    assert_eq!(params[2], ("offset".to_string(), "42".to_string()));
}

#[test]
fn telegram_updates_become_messages() {
    let group = TelegramUpdate {
        update_id: 5,
        message: Some(TelegramMessage {
            message_id: 9,
            from: Some(user()),
            chat: TelegramChat {
                id: -12,
                chat_type: "group".to_string(),
                title: Some("Team".to_string()),
            },
            date: 100,
            text: Some("hi".to_string()),
        }),
    };
    let empty = TelegramUpdate { update_id: 6, message: None };
    let bare = TelegramUpdate {
        update_id: 7,
        message: Some(TelegramMessage {
            message_id: 10,
            from: None,
            chat: TelegramChat { id: 3, chat_type: "private".to_string(), title: None },
            date: i64::MAX,
            text: None,
        }),
    };
    let resp = TelegramResponse {
        ok: true,
        result: Some(vec![group, empty, bare]),
        description: None,
    };
    let messages = fetch_messages(&resp, None, time(1)).unwrap();
    assert_eq!(messages.len(), 2);
    let m = &messages[0];
    assert_eq!(m.external_id, "9");
    assert_eq!(m.external_thread_id.as_deref(), Some("-12"));
    assert_eq!(m.sender_name, "Ada Lovelace");
    assert_eq!(m.sender_address, "77");
    assert_eq!(m.text.as_deref(), Some("hi"));
    assert_eq!(m.timestamp, time(100));
    assert_eq!(m.metadata.get("chat_id"), Some("-12"));
    assert_eq!(m.metadata.get("chat_type"), Some("group"));
    assert_eq!(m.metadata.get("update_id"), Some("5"));
    assert_eq!(m.metadata.get("chat_title"), Some("Team"));
    let m = &messages[1];
    assert_eq!(m.sender_name, "Unknown");
    assert_eq!(m.sender_address, "");
    assert_eq!(m.timestamp, time(1));
    assert_eq!(m.metadata.get("chat_title"), None);
}

#[test]
fn telegram_messages_from_before_are_left_out() {
    let update = |id: i64, date: i64| TelegramUpdate {
        update_id: id,
        message: Some(TelegramMessage {
            message_id: id,
            from: Some(user()),
            chat: TelegramChat { id: 3, chat_type: "private".to_string(), title: None },
            date,
            text: None,
        }),
    };
    let resp = TelegramResponse {
        ok: true,
        result: Some(vec![update(1, 99), update(2, 101), update(3, 100), update(4, i64::MAX)]),
        description: None,
    };
    let ids = |since, now| -> Vec<String> {
        let messages = fetch_messages(&resp, since, now).unwrap();
        messages.into_iter().map(|m| m.external_id).collect()
    };
    assert_eq!(ids(None, time(500)), vec!["1", "2", "3", "4"]);
    assert_eq!(ids(Some(time(100)), time(500)), vec!["2", "3", "4"]);
    assert_eq!(ids(Some(time(100)), time(50)), vec!["2", "3"]);
    assert!(ids(Some(time(200)), time(50)).is_empty());
}

#[test]
fn telegram_failure_is_a_channel_error() {
    let resp: TelegramResponse<Vec<TelegramUpdate>> =
        TelegramResponse { ok: false, result: None, description: Some("conflict".to_string()) };
    assert_eq!(
        fetch_messages(&resp, None, time(0)).unwrap_err().message(),
        "channel error: getUpdates failed: conflict"
    );
    let nothing: TelegramResponse<Vec<TelegramUpdate>> =
        TelegramResponse { ok: true, result: None, description: None };
    assert!(fetch_messages(&nothing, None, time(0)).unwrap().is_empty());
}

// --- normalizing ---

fn make_raw() -> RawMessage {
    RawMessage {
        external_id: "ext-123".to_string(),
        channel: Channel::Telegram,
        external_thread_id: Some("chat-456".to_string()),
        sender_name: "Alice".to_string(),
        sender_address: "alice_bot".to_string(),
        text: Some("Hello world".to_string()),
        html: None,
        subject: None,
        attachments: vec![RawAttachment {
            filename: "photo.jpg".to_string(),
            mime_type: "image/jpeg".to_string(),
            size_bytes: 1024,
        }],
        timestamp: time(1_700_000_000),
        metadata: TextMap::from_pairs(vec![("chat_type".to_string(), "private".to_string())]),
    }
}

#[test]
fn test_normalize_preserves_content() {
    let raw = make_raw();
    let ts = raw.timestamp;
    let sender_id = Uuid::random();
    let thread_id = Uuid::random();
    let msg = normalize(raw, sender_id, thread_id);
    assert_eq!(msg.channel, Channel::Telegram);
    assert_eq!(msg.sender_id, sender_id);
    assert_eq!(msg.thread_id, thread_id);
    assert_eq!(msg.content.text.as_deref(), Some("Hello world"));
    assert_eq!(msg.content.subject, None);
    assert_eq!(msg.content.attachments.len(), 1);
    assert_eq!(msg.content.attachments[0].filename, "photo.jpg");
    assert_eq!(msg.content.attachments[0].local_path, None);
    assert_eq!(msg.timestamp, ts);
    assert_eq!(msg.metadata.get("chat_type").unwrap(), "private");
    assert!(!msg.is_read);
    assert!(!msg.is_archived);
    assert!(msg.priority.is_none());
}

#[test]
fn test_normalize_generates_unique_ids() {
    let raw1 = make_raw();
    let raw2 = make_raw();
    let sender = Uuid::random();
    let thread = Uuid::random();
    let msg1 = normalize(raw1, sender, thread);
    let msg2 = normalize(raw2, sender, thread);
    assert_ne!(msg1.id, msg2.id);
}

#[test]
fn test_normalize_empty_attachments() {
    let mut raw = make_raw();
    raw.attachments.clear();
    let msg = normalize(raw, Uuid::random(), Uuid::random());
    assert!(msg.content.attachments.is_empty());
}

#[test]
fn normalize_draws_a_random_identifier() {
    let msg = normalize(make_raw(), Uuid { bits: 1 }, Uuid { bits: 2 });
    let text = msg.id.text();
    assert_eq!(text.as_bytes()[14], b'4');
    assert!(matches!(text.as_bytes()[19], b'8' | b'9' | b'a' | b'b'));
}

#[test]
fn normalize_with_id_takes_the_identifier() {
    let id = Uuid { bits: 42 };
    let msg = normalize_with_id(make_raw(), Uuid { bits: 1 }, Uuid { bits: 2 }, id);
    assert_eq!(msg.id, id);
    assert_eq!(msg.content.attachments[0].size_bytes, 1024);
}

#[test]
fn the_latest_message_gives_the_time() {
    let mut a = make_raw();
    a.timestamp = time(5);
    let mut b = make_raw();
    b.timestamp = time(9);
    let mut c = make_raw();
    c.timestamp = time(7);
    assert_eq!(latest_timestamp(&vec![]), None);
    let batch = vec![a, b, c];
    assert_eq!(latest_timestamp(&batch), Some(time(9)));
    assert_eq!(next_since(Some(time(1)), &batch), Some(time(9)));
    assert_eq!(next_since(Some(time(1)), &vec![]), Some(time(1)));
}

#[test]
fn a_copy_of_a_raw_message_holds_the_same() {
    let raw = make_raw();
    let copy = raw.copy();
    assert_eq!(copy.external_id, raw.external_id);
    assert_eq!(copy.attachments[0].mime_type, "image/jpeg");
    assert_eq!(copy.metadata.get("chat_type"), Some("private"));
}

// --- manager ---

fn test_config() -> ChannelConfig {
    let mut c = config("Test Telegram", "test-key");
    c.channel = Channel::Telegram;
    c.poll_interval_secs = 1;
    c
}

#[test]
fn test_manager_register_and_unregister() {
    let mut manager: AdapterManager<MockAdapter, u32> = AdapterManager::new();
    let config = test_config();
    let config_id = config.id;
    let mut adapter = MockAdapter::new();
    let connected = adapter.connect().map(|_| adapter);
    let result = manager.register(connected, config);
    assert!(result.is_ok());
    assert_eq!(manager.registered_configs().len(), 1);

    let released = manager.unregister(config_id);
    let result = released.adapter.unwrap().disconnect();
    let result = manager.unregistered(config_id, result);
    assert!(result.is_ok());
    assert_eq!(manager.registered_configs().len(), 0);
}

#[test]
fn test_manager_start_and_stop_sync() {
    let mut manager: AdapterManager<MockAdapter, u32> = AdapterManager::new();
    let mut adapter = MockAdapter::new();
    let mut raw = make_raw();
    raw.external_id = "msg-1".to_string();
    adapter.add_message(raw);
    let config = test_config();
    let config_id = config.id;
    adapter.connect().unwrap();
    manager.register(Ok(adapter), config).unwrap();
    match manager.start_sync(config_id).unwrap() {
        SyncPlan::Start { channel, poll_interval_secs, since } => {
            assert_eq!(channel, Channel::Telegram);
            assert_eq!(poll_interval_secs, 1);
            assert_eq!(since, None);
        }
        SyncPlan::Skip => panic!("the channel is enabled"),
    }
    manager.sync_started(config_id, 5);
    assert!(manager.is_syncing(config_id, |_| false));
    assert!(!manager.is_syncing(config_id, |_| true));

    let fetched = manager.get_adapter(config_id).unwrap().fetch_messages(None).unwrap();
    assert!(fetched.len() >= 1);

    assert_eq!(manager.stop_sync(config_id), Some(5));
    assert!(!manager.is_syncing(config_id, |_| false));
}

#[test]
fn test_manager_disabled_adapter_skips_sync() {
    let mut manager: AdapterManager<MockAdapter, u32> = AdapterManager::new();
    let mut config = test_config();
    config.enabled = false;
    let config_id = manager.register(Ok(MockAdapter::new()), config).unwrap();
    let result = manager.start_sync(config_id);
    assert!(matches!(result, Ok(SyncPlan::Skip)));
    assert!(!manager.is_syncing(config_id, |_| false));
}

#[test]
fn test_manager_shutdown() {
    let mut manager: AdapterManager<MockAdapter, u32> = AdapterManager::new();
    manager.register(Ok(MockAdapter::new()), test_config()).unwrap();
    manager.register(Ok(MockAdapter::new()), test_config()).unwrap();
    assert_eq!(manager.registered_configs().len(), 2);
    for id in manager.shutdown() {
        let released = manager.unregister(id);
        let result = released.adapter.unwrap().disconnect();
        manager.unregistered(id, result).unwrap();
    }
    assert_eq!(manager.registered_configs().len(), 0);
}

#[test]
fn a_channel_that_is_not_there_cannot_sync() {
    let mut manager: AdapterManager<MockAdapter, u32> = AdapterManager::new();
    let id = Uuid { bits: 1 };
    match manager.start_sync(id) {
        Err(CoreError::NotFound { entity, id: text }) => {
            assert_eq!(entity, "ChannelConfig");
            assert_eq!(text, "00000000-0000-0000-0000-000000000001");
        }
        _ => panic!("there is no such channel"),
    }
    let config = test_config();
    let id = config.id;
    manager.register(Ok(MockAdapter::new()), config).unwrap();
    manager.unregister(id);
    let failed = manager.unregistered(id, Err(CoreError::Channel("x".to_string())));
    assert!(failed.is_err());
    assert_eq!(manager.registered_configs(), vec![id]);
    match manager.start_sync(id) {
        Err(CoreError::NotFound { entity, .. }) => assert_eq!(entity, "Adapter"),
        _ => panic!("the adapter is gone"),
    }
}

#[test]
fn an_adapter_that_fails_to_connect_is_not_registered() {
    let mut manager: AdapterManager<MockAdapter, u32> = AdapterManager::new();
    let mut adapter = MockAdapter::new();
    adapter.set_fail_connect(true);
    let connected = adapter.connect().map(|_| adapter);
    let err = manager.register(connected, test_config()).unwrap_err();
    assert_eq!(err.message(), "connection error: mock connect failure");
    assert!(manager.registered_configs().is_empty());
}

#[test]
fn the_mock_gives_what_came_after() {
    let mut adapter = MockAdapter::new().with_channel(Channel::Email);
    assert_eq!(adapter.channel_type(), Channel::Email);
    let mut a = make_raw();
    a.timestamp = time(5);
    let mut b = make_raw();
    b.timestamp = time(9);
    b.external_id = "late".to_string();
    adapter.add_messages(vec![a, b]);
    assert_eq!(adapter.fetch_messages(None).unwrap().len(), 2);
    let late = adapter.fetch_messages(Some(time(5))).unwrap();
    assert_eq!(late.len(), 1);
    assert_eq!(late[0].external_id, "late");
    adapter.clear_messages();
    assert!(adapter.fetch_messages(None).unwrap().is_empty());
    adapter.set_fail_fetch(true);
    assert_eq!(
        adapter.fetch_messages(None).unwrap_err().message(),
        "channel error: mock fetch failure"
    );
}

#[test]
fn the_mock_keeps_replies() {
    let mut adapter = MockAdapter::default();
    adapter.connect().unwrap();
    assert!(adapter.is_connected());
    adapter.send_reply("chat", &content(Some("hi"), None), time(3)).unwrap();
    assert_eq!(adapter.sent_replies().len(), 1);
    assert_eq!(adapter.sent_replies()[0].thread_id, "chat");
    assert_eq!(adapter.sent_replies()[0].content.text.as_deref(), Some("hi"));
    assert_eq!(adapter.sent_replies()[0].sent_at, time(3));
    adapter.set_fail_send(true);
    let err = adapter.send_reply("chat", &content(None, None), time(3)).unwrap_err();
    assert_eq!(err.message(), "channel error: mock send failure");
    adapter.disconnect().unwrap();
    assert!(!adapter.is_connected());
}
