use messagehub_core::adapters::mock::MockAdapter;
use messagehub_core::adapters::RawMessage;
use messagehub_core::config::{
    build_factories, channel_kind_from_toml, credential_keychain_ref, default_mailbox,
    email_settings, parse_config_path, reconcile_channels, ChannelEntry, EmailCredentials,
    TelegramCredentials,
};
use messagehub_core::error::CoreError;
use messagehub_core::id::{stable_channel_id, Uuid};
use messagehub_core::runtime::channel_task::{TaskAction, TaskState};
use messagehub_core::runtime::classifier_worker::classified_event;
use messagehub_core::runtime::events::RuntimeEvent;
use messagehub_core::runtime::factory::FactoryRegistry;
use messagehub_core::runtime::ingestor::{
    after_ingest, ingest_message, resolve_thread, ThreadChoice,
};
use messagehub_core::runtime::status::{BackoffState, ChannelStatus};
use messagehub_core::text_map::TextMap;
use messagehub_core::time::Timestamp;
use messagehub_core::types::{Channel, ChannelConfig, Message, MessageContent, PriorityScore};

fn time(secs: i64) -> Timestamp {
    Timestamp::new(secs, 0).unwrap()
}

fn seed_config() -> ChannelConfig {
    ChannelConfig {
        id: Uuid { bits: 1 },
        channel: Channel::Telegram,
        label: "test".to_string(),
        keychain_ref: "none".to_string(),
        enabled: true,
        poll_interval_secs: 1,
        last_sync_cursor: None,
        last_sync_at: None,
        status: ChannelStatus::Healthy,
        last_error: None,
        consecutive_failures: 0,
    }
}

fn raw(ext_thread: Option<&str>, sender: &str) -> RawMessage {
    RawMessage {
        external_id: "msg-1".to_string(),
        channel: Channel::Telegram,
        external_thread_id: ext_thread.map(|s| s.to_string()),
        sender_name: sender.to_string(),
        sender_address: sender.to_string(),
        text: Some("hi".to_string()),
        html: None,
        subject: Some("S".to_string()),
        attachments: vec![],
        timestamp: time(50),
        metadata: TextMap::new(),
    }
}

fn published(actions: &[TaskAction]) -> Vec<&RuntimeEvent> {
    actions
        .iter()
        .filter_map(|a| match a {
            TaskAction::Publish { event } => Some(event),
            _ => None,
        })
        .collect()
}

// --- channel tasks ---

#[test]
fn successful_fetch_publishes_sync_succeeded_and_forwards_to_ingestor() {
    let config = seed_config();
    let mut adapter = MockAdapter::new();
    adapter.add_message(raw(Some("chat-1"), "bot"));
    let mut state = TaskState::new(&config);
    let fetched = adapter.fetch_messages(state.last_sync_at).unwrap();
    let mut actions = state.on_fetched(fetched);
    assert_eq!(actions.len(), 1);
    let mut batch = match actions.pop() {
        Some(TaskAction::HandOn { job }) => {
            assert_eq!(job.channel_id, config.id);
            job.batch
        }
        other => panic!("{:?}", other),
    };
    assert_eq!(batch.len(), 1);
    assert_eq!(state.last_sync_at, None);
    let actions = state.on_handed_on(Some("17".to_string()));
    assert!(published(&actions)
        .iter()
        .any(|e| matches!(e, RuntimeEvent::SyncSucceeded { count: 1, .. })));
    assert!(matches!(
        &actions[0],
        TaskAction::PersistSync { cursor, synced_at }
            if cursor.as_deref() == Some("17") && *synced_at == time(50)
    ));
    assert_eq!(state.last_sync_at, Some(time(50)));

    let id = Uuid { bits: 7 };
    let first = batch.remove(0);
    let message = ingest_message(first, Uuid { bits: 2 }, Uuid { bits: 3 }, config.id, id);
    let follow_up = after_ingest(Some(message.id), config.id, false);
    assert!(matches!(
        follow_up.event,
        Some(RuntimeEvent::MessageIngested { id: got, .. }) if got == id
    ));
    assert!(follow_up.classify.is_none());
}

#[test]
fn an_empty_fetch_publishes_nothing() {
    let mut state = TaskState::new(&seed_config());
    assert!(state.on_fetched(vec![]).is_empty());
    assert_eq!(state.last_sync_at, None);
}

#[test]
fn a_batch_that_was_not_taken_is_asked_for_again() {
    let mut config = seed_config();
    config.last_sync_at = Some(time(9));
    let mut state = TaskState::new(&config);
    state.on_fetched(vec![raw(None, "bot")]);
    let refused = state.on_refused();
    assert!(matches!(refused[..], [TaskAction::Stop]));
    assert_eq!(state.last_sync_at, Some(time(9)));
    assert!(state.on_handed_on(Some("17".to_string())).is_empty());
    assert_eq!(state.last_sync_at, Some(time(9)));
}

#[test]
fn failures_degrade_and_then_fail() {
    let mut state = TaskState::new(&seed_config());
    for attempt in 1..=3 {
        let actions = state.on_failure("down");
        assert!(published(&actions).iter().any(|e| matches!(
            e,
            RuntimeEvent::SyncFailed { attempt: a, .. } if *a == attempt
        )));
        assert!(state.last_status.same(&ChannelStatus::Degraded { attempt }));
    }
    state.on_failure("down");
    assert!(state.last_status.same(&ChannelStatus::Failed { last_error: "down".to_string() }));
    let again = state.on_failure("down");
    assert_eq!(again.len(), 1);
    let recovered = state.on_fetched(vec![]);
    assert_eq!(recovered.len(), 2);
    assert!(matches!(
        recovered[0],
        TaskAction::PersistStatus { status: ChannelStatus::Healthy, consecutive_failures: 0 }
    ));
    assert!(state.on_fetched(vec![]).is_empty());
}

#[test]
fn a_stored_status_is_taken_up() {
    let mut config = seed_config();
    config.consecutive_failures = 2;
    config.last_sync_at = Some(time(9));
    let state = TaskState::new(&config);
    assert!(state.last_status.same(&ChannelStatus::Degraded { attempt: 2 }));
    assert_eq!(state.last_sync_at, Some(time(9)));
}

#[test]
fn the_backoff_counts_failures() {
    let mut b = BackoffState { consecutive_failures: u32::MAX };
    b.record_failure();
    assert_eq!(b.consecutive_failures, u32::MAX);
    b.record_success();
    assert!(b.status(None).same(&ChannelStatus::Healthy));
    assert!(ChannelStatus::default().same(&ChannelStatus::Healthy));
    assert_eq!(ChannelStatus::Healthy.db_str(), "healthy");
    assert_eq!(ChannelStatus::Degraded { attempt: 1 }.db_str(), "degraded");
    assert_eq!(ChannelStatus::Failed { last_error: String::new() }.db_str(), "failed");
    let copy = ChannelStatus::Failed { last_error: "x".to_string() }.copy();
    assert!(copy.same(&ChannelStatus::Failed { last_error: "x".to_string() }));
    assert!(!copy.same(&ChannelStatus::Failed { last_error: "y".to_string() }));
}

#[test]
fn the_delay_doubles_with_each_failure() {
    let state = |n| BackoffState { consecutive_failures: n };
    assert_eq!(state(0).next_delay_secs(10, 0), 10);
    assert_eq!(state(0).next_delay_secs(10, 20), 12);
    assert_eq!(state(0).next_delay_secs(10, 99), 12);
    assert_eq!(state(1).next_delay_secs(10, 0), 20);
    assert_eq!(state(3).next_delay_secs(10, 10), 88);
    assert_eq!(state(6).next_delay_secs(10, 0), 640);
    assert_eq!(state(u32::MAX).next_delay_secs(10, 0), 640);
}

// --- ingesting ---

#[test]
fn a_new_thread_takes_over_what_its_message_says() {
    let r = raw(Some("chat-1"), "alice");
    let thread = match resolve_thread(&r, None, Uuid { bits: 3 }) {
        ThreadChoice::New(t) => t,
        ThreadChoice::Existing(_) => panic!("there is no thread yet"),
    };
    assert_eq!(thread.id, Uuid { bits: 3 });
    assert_eq!(thread.external_thread_id.as_deref(), Some("chat-1"));
    assert_eq!(thread.subject.as_deref(), Some("S"));
    assert_eq!(thread.message_count, 0);
    assert_eq!(thread.created_at, time(50));
    let m = ingest_message(r, Uuid { bits: 2 }, thread.id, Uuid { bits: 4 }, Uuid { bits: 9 });
    assert_eq!(m.sender_id, Uuid { bits: 2 });
    assert_eq!(m.thread_id, Uuid { bits: 3 });
    match resolve_thread(&raw(None, "alice"), Some(thread), Uuid { bits: 8 }) {
        ThreadChoice::New(t) => assert_eq!(t.id, Uuid { bits: 8 }),
        ThreadChoice::Existing(_) => panic!("a message without a thread gets its own"),
    }
}

#[test]
fn a_message_that_was_not_stored_is_dropped() {
    let channel_id = Uuid { bits: 4 };
    let dropped = after_ingest(None, channel_id, true);
    assert!(dropped.event.is_none());
    assert!(dropped.classify.is_none());
    let unsorted = after_ingest(Some(Uuid { bits: 9 }), channel_id, false);
    assert!(unsorted.event.is_some());
    assert!(unsorted.classify.is_none());
}

// --- classifying ---

fn message() -> Message {
    Message {
        id: Uuid { bits: 1 },
        channel: Channel::Telegram,
        thread_id: Uuid { bits: 2 },
        sender_id: Uuid { bits: 3 },
        content: MessageContent { text: None, html: None, subject: None, attachments: vec![] },
        timestamp: time(0),
        metadata: TextMap::new(),
        priority: PriorityScore::new(4),
        category: Some("work".to_string()),
        is_read: false,
        is_archived: false,
        external_id: None,
        received_on_channel_id: None,
    }
}

#[test]
fn worker_processes_queued_id_and_emits_event() {
    let msg_id = Uuid { bits: 1 };
    match classified_event(msg_id, true, Ok(message())) {
        Some(RuntimeEvent::MessageClassified { id, category, priority }) => {
            assert_eq!(id, msg_id);
            assert!(category.is_some(), "category should be populated");
            assert_eq!(priority, Some(PriorityScore::new(4).unwrap()));
        }
        other => panic!("unexpected event: {:?}", other),
    }
    let lost = Err(CoreError::Database("gone".to_string()));
    match classified_event(msg_id, true, lost) {
        Some(RuntimeEvent::MessageClassified { category, priority, .. }) => {
            assert!(category.is_none());
            assert!(priority.is_none());
        }
        other => panic!("unexpected event: {:?}", other),
    }
    assert!(classified_event(msg_id, false, Ok(message())).is_none());
}

// --- factories ---

#[test]
fn registry_returns_registered_factory() {
    let mut reg: FactoryRegistry<&str> = FactoryRegistry::new();
    reg.register("Telegram".to_string(), "dummy");
    assert!(reg.get("Telegram").is_some());
    assert!(reg.get("Email").is_none());
    reg.register("Telegram".to_string(), "other");
    assert_eq!(reg.get("Telegram"), Some(&"other"));
}

// --- the configuration file ---

fn email_entry(label: &str, password: Option<&str>) -> ChannelEntry {
    ChannelEntry {
        kind: "email".to_string(),
        label: label.to_string(),
        poll_interval_secs: 60,
        enabled: true,
        email: match password {
            Some(p) => Ok(EmailCredentials {
                imap_host: "imap.x".to_string(),
                imap_port: 993,
                smtp_host: "smtp.x".to_string(),
                smtp_port: 587,
                username: "me".to_string(),
                password: p.to_string(),
                mailbox: default_mailbox(),
            }),
            None => Err("missing field".to_string()),
        },
        telegram: Err("not for Telegram".to_string()),
    }
}

fn telegram_entry(label: &str) -> ChannelEntry {
    ChannelEntry {
        kind: "telegram".to_string(),
        label: label.to_string(),
        poll_interval_secs: 5,
        enabled: false,
        email: Err("not for mail".to_string()),
        telegram: Ok(TelegramCredentials { bot_token: "1:A".to_string() }),
    }
}

#[test]
fn the_file_is_named_by_a_flag() {
    let args = |v: &[&str]| v.iter().map(|s| s.to_string()).collect::<Vec<String>>();
    assert_eq!(parse_config_path(&args(&[])), "messagehub.toml");
    assert_eq!(parse_config_path(&args(&["--config", "a.toml"])), "a.toml");
    assert_eq!(parse_config_path(&args(&["x", "--config"])), "messagehub.toml");
    assert_eq!(parse_config_path(&args(&["--config", "--config", "b"])), "--config");
    assert_eq!(default_mailbox(), "INBOX");
}

#[test]
fn only_two_kinds_are_known() {
    assert_eq!(channel_kind_from_toml("email").unwrap(), Channel::Email);
    assert_eq!(channel_kind_from_toml("telegram").unwrap(), Channel::Telegram);
    assert_eq!(channel_kind_from_toml("fax").unwrap_err(), "unsupported channel kind 'fax'");
}

#[test]
fn secrets_are_written_as_adapters_read_them() {
    assert_eq!(credential_keychain_ref(&email_entry("m", Some("p:q"))).unwrap(), "me:p:q");
    assert_eq!(credential_keychain_ref(&telegram_entry("t")).unwrap(), "1:A");
    assert_eq!(
        credential_keychain_ref(&email_entry("m", None)).unwrap_err(),
        "email channel 'm': bad credentials — missing field"
    );
    let mut fax = telegram_entry("f");
    fax.kind = "fax".to_string();
    assert_eq!(credential_keychain_ref(&fax).unwrap_err(), "unsupported channel kind 'fax'");
}

#[test]
fn new_channels_are_stored() {
    let entries = vec![email_entry("m", Some("p")), telegram_entry("t")];
    let known = vec![stable_channel_id("email", "m")];
    let r = reconcile_channels(&known, &entries);
    assert_eq!(r.inserts.len(), 1);
    assert_eq!(r.inserts[0].id, stable_channel_id("telegram", "t"));
    assert_eq!(r.inserts[0].channel, Channel::Telegram);
    assert_eq!(r.inserts[0].keychain_ref, "1:A");
    assert_eq!(r.inserts[0].poll_interval_secs, 5);
    assert!(!r.inserts[0].enabled);
    let labels = r.labels.unwrap_or_else(|e| panic!("{}", e));
    assert_eq!(labels.get(known[0]).map(|s| s.as_str()), Some("m"));
    assert_eq!(labels.ids().len(), 2);
}

#[test]
fn a_bad_entry_stops_after_those_before_it() {
    let entries = vec![telegram_entry("t"), email_entry("m", None), telegram_entry("u")];
    let r = reconcile_channels(&vec![], &entries);
    assert_eq!(r.inserts.len(), 1);
    match r.labels {
        Err(e) => assert_eq!(e, "email channel 'm': bad credentials — missing field"),
        Ok(_) => panic!("the second entry is bad"),
    }
    let known: Vec<Uuid> =
        entries.iter().map(|e| stable_channel_id(&e.kind, &e.label)).collect();
    let again = reconcile_channels(&known, &entries);
    assert!(again.inserts.is_empty());
    assert!(again.labels.is_ok());
}

#[test]
fn mail_adapters_get_their_servers() {
    let entries = vec![email_entry("m", Some("p")), telegram_entry("t")];
    let accounts = build_factories(&entries).unwrap_or_else(|e| panic!("{}", e));
    let mut row = seed_config();
    row.id = stable_channel_id("email", "m");
    let settings = email_settings(&accounts, &row).unwrap();
    assert_eq!(settings.host, "imap.x");
    assert_eq!(settings.smtp_port, 587);
    row.id = stable_channel_id("telegram", "t");
    assert_eq!(
        email_settings(&accounts, &row).unwrap_err().message(),
        "invalid input: runtime-demo: no email credentials for channel 'test'"
    );
    match build_factories(&vec![email_entry("m", None)]) {
        Err(e) => assert_eq!(e, "email channel 'm': missing field"),
        Ok(_) => panic!("the entry is bad"),
    }
}
