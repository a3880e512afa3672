use messagehub_core::ai::cloud::actions::common::{
    answer_object, confidence_signals, outgoing, schema_error,
};
use messagehub_core::ai::cloud::actions::{draft, search, summarize};
use messagehub_core::ai::cloud::{CloudAction, CloudConfig, Redactor, ReverseMap};
use messagehub_core::ai::json::{extract_first_json_object, strip_fences};
use messagehub_core::ai::llm::OllamaLlm;
use messagehub_core::ai::pipeline::{classify_input, classify_stored, enrich_and_store, Certainty};
use messagehub_core::ai::prompts::{
    build_classification_user_prompt, check_response, parse_classification_response,
    response_object, RawResponse, CLASSIFICATION_SYSTEM_PROMPT,
};
use messagehub_core::ai::rag::{
    build_rag_context, build_retrieval_query, rag_filters, ContextChunk,
};
use messagehub_core::ai::{Category, Classification, Classifier, RagContext, UserProfile};
use messagehub_core::ai::classifier::backend_error;
use messagehub_core::error::CoreError;
use messagehub_core::store::sql::SqlValue;
use messagehub_core::id::Uuid;
use messagehub_core::knowledge::retrieval::RetrievedChunk;
use messagehub_core::text_map::TextMap;
use messagehub_core::time::Timestamp;
use messagehub_core::types::{
    Channel, Contact, ContactIdentity, Message, MessageContent, PriorityScore,
};

fn time(secs: i64) -> Timestamp {
    Timestamp::new(secs, 0).unwrap()
}

fn rag() -> RagContext {
    RagContext {
        sender_name: None,
        sender_vault_path: None,
        topic_chunks: vec![],
        user_profile_content: String::new(),
    }
}

fn message(text: &str, subject: Option<&str>) -> Message {
    Message {
        id: Uuid { bits: 1 },
        channel: Channel::Email,
        thread_id: Uuid { bits: 2 },
        sender_id: Uuid { bits: 3 },
        content: MessageContent {
            text: Some(text.to_string()),
            html: None,
            subject: subject.map(|s| s.to_string()),
            attachments: vec![],
        },
        timestamp: time(0),
        metadata: TextMap::new(),
        priority: None,
        category: None,
        is_read: false,
        is_archived: false,
        external_id: None,
        received_on_channel_id: None,
    }
}

fn contact() -> Contact {
    Contact {
        id: Uuid { bits: 3 },
        display_name: "Ada".to_string(),
        identities: vec![
            ContactIdentity { channel: Channel::Telegram, address: "@ada".to_string() },
            ContactIdentity { channel: Channel::Email, address: "ada@example.com".to_string() },
        ],
        vault_ref: None,
        created_at: time(0),
        updated_at: time(0),
    }
}

// --- categories ---

#[test]
fn test_category_roundtrip() {
    for s in Category::all_strs() {
        let cat = Category::from_str(s).unwrap();
        assert_eq!(cat.as_str(), s);
    }
}

#[test]
fn test_category_case_insensitive() {
    assert_eq!(Category::from_str("WORK").unwrap(), Category::Work);
    assert_eq!(Category::from_str("  Spam  ").unwrap(), Category::Spam);
}

#[test]
fn test_category_rejects_unknown() {
    assert!(Category::from_str("important").is_none());
    assert!(Category::from_str("").is_none());
}

// --- answers ---

#[test]
fn test_strip_fences_noop_when_absent() {
    assert_eq!(strip_fences("{\"a\": 1}"), "{\"a\": 1}");
}

#[test]
fn test_strip_fences_handles_json_label() {
    let input = "```json\n{\"a\": 1}\n```";
    assert_eq!(strip_fences(input), "{\"a\": 1}");
}

#[test]
fn fences_without_an_end_are_stripped_too() {
    assert_eq!(strip_fences("  ```\n{}"), "{}");
    assert_eq!(strip_fences("```jsonx```"), "x");
}

#[test]
fn test_extract_first_json_object_finds_balanced_block() {
    let input = "prefix {\"a\": {\"b\": 1}} suffix";
    assert_eq!(extract_first_json_object(input).unwrap(), "{\"a\": {\"b\": 1}}");
}

#[test]
fn test_extract_first_json_object_returns_none_when_no_object() {
    assert_eq!(extract_first_json_object("no braces here"), None);
}

#[test]
fn an_object_that_does_not_end_is_none() {
    assert_eq!(extract_first_json_object("{{}"), None);
    assert_eq!(extract_first_json_object("} é {x}").as_deref(), Some("{x}"));
}

fn answer(priority: u8, category: &str, reasoning: &str) -> RawResponse {
    RawResponse {
        priority,
        category: category.to_string(),
        reasoning: reasoning.to_string(),
    }
}

#[test]
fn a_classification_is_checked() {
    let c = check_response(answer(4, " Work ", "because")).unwrap();
    assert_eq!(c.priority.value(), 4);
    assert_eq!(c.category, Category::Work);
    assert_eq!(c.reasoning, "because");
    assert_eq!(
        check_response(answer(6, "work", "x")).unwrap_err().message(),
        "ai error: priority 6 out of range 1..=5"
    );
    assert_eq!(
        check_response(answer(1, "urgent", "x")).unwrap_err().message(),
        "ai error: unknown category 'urgent'; must be one of [\"work\", \"personal\", \
         \"finance\", \"family\", \"notifications\", \"newsletters\", \"spam\"]"
    );
    assert_eq!(
        check_response(answer(1, "work", " ")).unwrap_err().message(),
        "ai error: empty reasoning field"
    );
}

#[test]
fn an_answer_is_parsed() {
    let raw = "Sure: ```{\"priority\":4,\"category\":\"work\",\"reasoning\":\"x\"}```";
    assert_eq!(
        response_object(raw).unwrap(),
        "{\"priority\":4,\"category\":\"work\",\"reasoning\":\"x\"}"
    );
    let read = Ok(answer(4, "work", "x"));
    assert_eq!(parse_classification_response(raw, read).unwrap().priority.value(), 4);
    let err = parse_classification_response("a \"b\"\n", Err("unused".to_string())).unwrap_err();
    assert_eq!(err.message(), "ai error: no JSON object found in response: \"a \\\"b\\\"\\n\"");
    let err = parse_classification_response("{}", Err("missing field".to_string())).unwrap_err();
    assert_eq!(
        err.message(),
        "ai error: response JSON does not match schema: missing field"
    );
}

// --- prompts ---

#[test]
fn the_prompt_of_a_classification() {
    let known = RagContext {
        sender_name: Some("Ada".to_string()),
        sender_vault_path: Some("05-People/Ada.md".to_string()),
        topic_chunks: vec![ContextChunk {
            file_path: "a.md".to_string(),
            heading: None,
            content: " note ".to_string(),
        }],
        user_profile_content: "me".to_string(),
    };
    let got = build_classification_user_prompt(
        Channel::Email,
        "Ada",
        "ada@example.com",
        "Hi",
        " text ",
        &known,
    );
    assert_eq!(
        got,
        "# Incoming message\nChannel: Email\nFrom: Ada <ada@example.com>\nSubject: Hi\n\nBody:\n\
         text\n\n# Sender context (from vault)\n- Known contact: Ada (profile: 05-People/Ada.md)\n\
         \n# Relevant vault notes\n- [a.md — (no heading)] note\n\n# User profile\nme\n\
         \nClassify this message.\n"
    );
    let request = Classifier::new().request(
        Channel::Email,
        "Ada",
        "ada@example.com",
        "Hi",
        " text ",
        &known,
    );
    assert_eq!(request.user, got);
    assert_eq!(request.system, CLASSIFICATION_SYSTEM_PROMPT);
    assert_eq!(request.max_tokens, 256);
}

#[test]
fn the_prompt_without_context() {
    let got = build_classification_user_prompt(Channel::WhatsApp, "A", "a", "  ", "b", &rag());
    assert_eq!(
        got,
        "# Incoming message\nChannel: WhatsApp\nFrom: A <a>\n\nBody:\nb\n\n\
         # Sender context (from vault)\n- Unknown sender — no vault profile match.\n\
         \n# Relevant vault notes\n- (no vault content matched this message)\n\
         \n# User profile\n- (no profile configured)\n\
         \nClassify this message.\n"
    );
}

#[test]
fn a_long_body_is_cut_in_the_prompt() {
    let long = "q".repeat(3_000);
    let got = build_classification_user_prompt(Channel::Sms, "A", "a", "", &long, &rag());
    assert_eq!(got.matches('q').count(), 2_000);
}

#[test]
fn five_chunks_from_any_folder_are_searched_for() {
    let filters = rag_filters();
    assert!(filters.para_folders.is_none());
    assert_eq!(filters.top_k, Some(5));
}

#[test]
fn test_build_retrieval_query_handles_empty_subject() {
    let q = build_retrieval_query("", "Hello world");
    assert_eq!(q, "Hello world");
}

#[test]
fn test_build_retrieval_query_emphasizes_subject() {
    let q = build_retrieval_query("Urgent", "detail");
    let count = q.matches("Urgent").count();
    assert_eq!(count, 2);
}

#[test]
fn test_build_retrieval_query_truncates_long_bodies() {
    let long = "x".repeat(1_000);
    let q = build_retrieval_query("S", &long);
    assert!(q.chars().count() <= 504);
}

#[test]
fn the_context_takes_what_was_found() {
    let found = vec![RetrievedChunk {
        file_path: "a.md".to_string(),
        section_heading: Some("H".to_string()),
        content: "c".to_string(),
        para_folder: None,
        distance: 0,
    }];
    let profile = UserProfile { content: "p".to_string() };
    let sender = Some(("Ada".to_string(), "05-People/Ada.md".to_string()));
    let r = build_rag_context(sender, found, &profile);
    assert_eq!(r.sender_name.as_deref(), Some("Ada"));
    assert_eq!(r.sender_vault_path.as_deref(), Some("05-People/Ada.md"));
    assert_eq!(r.topic_chunks[0].heading.as_deref(), Some("H"));
    assert_eq!(r.user_profile_content, "p");
    assert_eq!(confidence_signals(&r), (true, true));
    assert_eq!(confidence_signals(&rag()), (false, false));
}

#[test]
fn the_profile_fits_its_budget() {
    assert!(!UserProfile::load(None).has_content());
    let short = UserProfile::load(Some(" hello ".to_string()));
    assert!(short.has_content());
    assert_eq!(short.content, " hello ");
    assert!(!UserProfile::load(Some(" \n ".to_string())).has_content());
    let long = UserProfile::load(Some("é".repeat(4_001)));
    assert_eq!(long.content.chars().count(), 3_999);
    assert!(long.content.ends_with("é[truncated]"));
}

#[test]
fn the_local_model_is_asked_under_its_address() {
    let llm = OllamaLlm::new("http://127.0.0.1:11434//".to_string(), "phi3:mini".to_string());
    assert_eq!(llm.model(), "phi3:mini");
    assert_eq!(llm.chat_url(), "http://127.0.0.1:11434/api/chat");
    assert_eq!(llm.health_url(), "http://127.0.0.1:11434/api/tags");
    assert!(OllamaLlm::health_check(Some(true)).unwrap());
    assert!(!OllamaLlm::health_check(Some(false)).unwrap());
    assert!(!OllamaLlm::health_check(None).unwrap());
    let long = "y".repeat(300);
    let err = OllamaLlm::refused("500 Internal Server Error", &long).message();
    assert_eq!(
        err,
        format!("ai error: ollama returned 500 Internal Server Error — {}", "y".repeat(200))
    );
}

// --- the pipeline ---

#[test]
fn classify_stored_happy_path_updates_row() {
    let raw = r#"{"category":"Work","priority":4,"reasoning":"test"}"#;
    let result = parse_classification_response(raw, Ok(answer(4, "Work", "test")));
    let stored = classify_stored(Uuid { bits: 1 }, result);
    assert!(stored.outcome.classified);
    assert_eq!(stored.category, "work");
    assert_eq!(stored.priority.value(), 4);
    assert_eq!(stored.log.entry.action_type, "classify");
    assert_eq!(stored.log.entry.description, "test");
    assert_eq!(stored.log.certainty, Certainty::Full);
    assert!(stored.log.must_succeed);
}

#[test]
fn classify_stored_llm_failure_writes_degraded_row() {
    let failure = CoreError::InvalidInput("simulated llm failure".to_string());
    let stored = classify_stored(Uuid { bits: 1 }, Err(failure));
    assert!(!stored.outcome.classified);
    assert_eq!(stored.category, "Unknown");
    assert_eq!(stored.priority, PriorityScore::new(1).unwrap());
    assert_eq!(stored.log.entry.action_type, "classify_failed");
    assert_eq!(stored.log.entry.entity_type, "message");
    assert_eq!(stored.log.entry.entity_id, "00000000-0000-0000-0000-000000000001");
    assert_eq!(
        stored.log.entry.description,
        "classification failed: invalid input: simulated llm failure"
    );
    assert_eq!(stored.log.certainty, Certainty::Zero);
    assert!(!stored.log.must_succeed);
}

#[test]
fn a_new_message_is_enriched() {
    let c = Classification {
        priority: PriorityScore::new(5).unwrap(),
        category: Category::Family,
        reasoning: "why".to_string(),
    };
    let e = enrich_and_store(message("hi", None), Ok(c));
    assert!(e.outcome.classified);
    assert_eq!(e.message.priority.unwrap().value(), 5);
    assert_eq!(e.message.category.as_deref(), Some("family"));
    assert_eq!(e.log.entry.description, "why");
    let e = enrich_and_store(message("hi", None), Err(CoreError::Ai("down".to_string())));
    assert!(!e.outcome.classified);
    assert!(e.message.priority.is_none());
    assert!(e.message.category.is_none());
    assert_eq!(e.log.entry.description, "classification failed: ai error: down");
}

#[test]
fn what_is_classified_of_a_message() {
    let input = classify_input(&message("hi", Some("s")), &contact());
    assert_eq!(input.channel, Channel::Email);
    assert_eq!(input.sender_name, "Ada");
    assert_eq!(input.sender_address, "ada@example.com");
    assert_eq!(input.subject, "s");
    assert_eq!(input.body, "hi");
    let mut m = message("hi", None);
    m.channel = Channel::Teams;
    let input = classify_input(&m, &contact());
    assert_eq!(input.sender_address, "");
    assert_eq!(input.subject, "");
}

// --- scrubbing ---

fn redactor(names: &[&str]) -> Redactor {
    Redactor::from_names(names.iter().map(|s| s.to_string()).collect())
}

#[test]
fn scrubbing_and_restoring() {
    let r = redactor(&["Alice", "Alice Example"]);
    let input = "alice example wrote to Alice at a.b@example.com or +49 123 4567890.";
    let (text, map) = r.redact(input);
    assert_eq!(text, "[PERSON_1] wrote to [PERSON_2] at [EMAIL_1] or [PHONE_1].");
    assert_eq!(map.get("[PERSON_1]"), Some("alice example"));
    assert_eq!(map.get("[PERSON_2]"), Some("Alice"));
    assert_eq!(map.get("[EMAIL_1]"), Some("a.b@example.com"));
    assert_eq!(map.get("[PHONE_1]"), Some("+49 123 4567890"));
    assert_eq!(Redactor::un_redact(&text, &map), input);
}

#[test]
fn the_same_original_has_the_same_token() {
    let r = redactor(&["Bob"]);
    let (text, map) = r.redact("Bob and Bob and BOB");
    assert_eq!(text, "[PERSON_1] and [PERSON_1] and [PERSON_2]");
    assert_eq!(map.len(), 2);
}

#[test]
fn more_than_nine_tokens_are_restored() {
    let input = (1..=12).map(|i| format!("u{}@example.com", i)).collect::<Vec<_>>().join(", ");
    let (text, map) = redactor(&[]).redact(&input);
    assert!(text.starts_with("[EMAIL_1], [EMAIL_2]"));
    assert_eq!(map.len(), 12);
    assert_eq!(Redactor::un_redact(&text, &map), input);
}

#[test]
fn short_numbers_are_kept() {
    let (text, map) = redactor(&[]).redact("order 12345678");
    assert_eq!(text, "order 12345678");
    assert!(map.is_empty());
}

#[test]
fn tokens_that_are_not_in_the_map_stay() {
    assert_eq!(Redactor::un_redact("[PERSON_7] hi", &ReverseMap::new()), "[PERSON_7] hi");
}

#[test]
fn names_with_letters_that_grow_in_lower_case() {
    let r = redactor(&["Bob"]);
    let input = "İ and Bob";
    let (text, map) = r.redact(input);
    assert_eq!(Redactor::un_redact(&text, &map), input);
}

#[test]
fn names_are_found_where_lower_case_is_longer() {
    let (text, map) = redactor(&["Alice"]).redact("\u{130} Alice x \u{130}ALICE");
    assert_eq!(text, "\u{130} [PERSON_1] x \u{130}[PERSON_2]");
    assert_eq!(map.get("[PERSON_1]"), Some("Alice"));
    assert_eq!(map.get("[PERSON_2]"), Some("ALICE"));

    let (text, map) = redactor(&["\u{130}pek"]).redact("von \u{130}PEK an ipek");
    assert_eq!(text, "von [PERSON_1] an ipek");
    assert_eq!(map.get("[PERSON_1]"), Some("\u{130}PEK"));

    let (text, _) = redactor(&["\u{39d}\u{3af}\u{3ba}\u{3bf}\u{3c2}"])
        .redact("\u{39d}\u{38a}\u{39a}\u{39f}\u{3a3}\u{39d}\u{38a}\u{39a}\u{39f}\u{3a3}");
    assert_eq!(text, "[PERSON_1][PERSON_1]");
}

#[test]
fn no_name_is_left_in_what_leaves() {
    let names = ["Alice", "Ann Lee", "O'Neil"];
    let r = redactor(&names);
    let input = "ALICE, ann lee and o'neil: Alice@example.com, aliCEalice, +1 555 123 4567";
    let (text, map) = r.redact(input);
    let low = text.to_lowercase();
    for name in names {
        assert!(!low.contains(&name.to_lowercase()), "{}", text);
    }
    assert_eq!(Redactor::un_redact(&text, &map), input);
}

#[test]
fn a_redactor_without_people_still_scrubs_addresses() {
    let failed = Redactor::build(Err(CoreError::Database("locked".to_string()))).unwrap();
    assert!(failed.is_ready());
    let (text, _) = failed.redact("x@example.com");
    assert_eq!(text, "[EMAIL_1]");
    let built = Redactor::build(Ok(vec!["Eve".to_string()])).unwrap();
    assert_eq!(built.redact("eve").0, "[PERSON_1]");
    assert!(!redactor(&["", "x"]).is_ready());
}

#[test]
fn text_leaves_scrubbed_only_where_asked() {
    let r = redactor(&["Eve"]);
    assert!(!CloudConfig::default().redact);
    let plain = outgoing("Eve", &r, CloudConfig { redact: false });
    assert_eq!(plain.text, "Eve");
    assert!(plain.map.is_empty());
    let scrubbed = outgoing("Eve", &r, CloudConfig { redact: true });
    assert_eq!(scrubbed.text, "[PERSON_1]");
}

// --- cloud actions ---

#[test]
fn cloud_actions_have_stable_names() {
    assert_eq!(CloudAction::SummarizeThread.as_str(), "summarize_thread");
    assert_eq!(CloudAction::DraftReply.as_str(), "draft_reply");
    assert_eq!(CloudAction::SmartSearch.as_str(), "smart_search");
}

#[test]
fn an_answer_needs_an_object() {
    assert_eq!(answer_object("```json\n{\"a\":1}```").unwrap(), "{\"a\":1}");
    assert_eq!(
        answer_object("none").unwrap_err().message(),
        "cloud error: no JSON object in cloud response: \"none\""
    );
    assert_eq!(
        schema_error("x").message(),
        "cloud error: cloud response schema mismatch: x"
    );
}

fn parsed_draft(text: &str, language: &str) -> draft::ParsedDraft {
    draft::ParsedDraft { draft: text.to_string(), language: language.to_string() }
}

#[test]
fn a_draft_is_asked_for_and_finished() {
    let r = redactor(&["Eve"]);
    let input = draft::draft_input(&message("Eve says hi", Some("S")), &contact());
    assert_eq!(input.sender_address, "ada@example.com");
    assert_eq!(draft::build_chunk_query("S", "b"), "S b");
    let body = outgoing(&input.body, &r, CloudConfig { redact: true });
    let request = draft::draft_request(&input, &body, &rag());
    assert_eq!(request.max_tokens, 1024);
    assert!(request.user.starts_with(
        "# Incoming message\nChannel: Email\nFrom: ada@example.com\nSubject: S\n\nBody:\n\
         [PERSON_1] says hi\n\n# Sender context"
    ));
    assert!(request.user.ends_with("\nDraft a reply to this message.\n"));
    let parsed = parsed_draft("Hi [PERSON_1] and [EMAIL_9].", "en");
    let plan = draft::finish_draft(Uuid { bits: 1 }, body, &parsed);
    assert_eq!(plan.output, "Hi Eve and .");
    assert_eq!(plan.input_redacted, "[PERSON_1] says hi");
    assert_eq!(plan.message_id, Some(Uuid { bits: 1 }));
    assert_eq!(plan.action, CloudAction::DraftReply);
    assert_eq!(plan.log.action_type, "draft_reply");
    assert_eq!(plan.log.description, "language=en");
    let failure = draft::draft_failure(Uuid { bits: 1 }, &CoreError::Cloud("x".to_string()));
    assert_eq!(failure.action_type, "draft_reply_failed");
    assert_eq!(failure.description, "cloud error: x");
}

#[test]
fn a_draft_is_checked() {
    assert!(draft::parse_response("{}", Ok(parsed_draft("x", "de"))).is_ok());
    assert_eq!(
        draft::parse_response("{}", Ok(parsed_draft(" ", "de"))).unwrap_err().message(),
        "cloud error: empty draft field"
    );
    assert_eq!(
        draft::parse_response("{}", Ok(parsed_draft("x", "it"))).unwrap_err().message(),
        "cloud error: unknown language 'it'; must be one of [\"en\", \"fr\", \"de\"]"
    );
    assert_eq!(
        draft::parse_response("{}", Err("bad".to_string())).unwrap_err().message(),
        "cloud error: cloud response schema mismatch: bad"
    );
}

#[test]
fn a_summary_is_asked_for_and_finished() {
    let thread = vec![message(" one ", Some("S")), message("two", None)];
    let text = summarize::render_thread_as_text(&thread);
    assert_eq!(
        text,
        "[1970-01-01T00:00:00+00:00] (subject: S) one\n[1970-01-01T00:00:00+00:00] two\n"
    );
    let thread_id = Uuid { bits: 2 };
    assert_eq!(summarize::anchor_message(&thread, thread_id).unwrap(), 1);
    assert_eq!(
        summarize::anchor_message(&vec![], thread_id).unwrap_err().message(),
        "cloud error: cannot summarize empty thread 00000000-0000-0000-0000-000000000002"
    );
    assert_eq!(
        summarize::resolve_sender_address(Ok(contact()), &thread[0]).as_deref(),
        Some("ada@example.com")
    );
    let lost = Err(CoreError::Channel("x".to_string()));
    assert_eq!(summarize::resolve_sender_address(lost, &thread[0]), None);
    let sent = outgoing(&text, &redactor(&[]), CloudConfig { redact: false });
    let request = summarize::summary_request(&sent, &rag());
    assert_eq!(request.max_tokens, 512);
    assert!(request.user.starts_with("# Conversation to summarize\n\n[1970-01-01"));
    assert!(request.user.ends_with("\nSummarize this conversation.\n"));
    let parsed =
        summarize::ParsedSummary { summary: "short".to_string(), language: "xx".to_string() };
    let plan = summarize::finish_summary(thread_id, Uuid { bits: 1 }, &sent, &parsed);
    assert_eq!(plan.output, "short");
    assert_eq!(plan.input_redacted, text);
    assert_eq!(plan.log.entity_type, "thread");
    assert_eq!(plan.log.description, "short");
    let wrapped = summarize::wrap_provider_error(&CoreError::Cloud("x".to_string()));
    assert_eq!(wrapped.message(), "cloud error: cloud error: x");
    let failure = summarize::summary_failure(thread_id, &CoreError::Cloud("x".to_string()));
    assert_eq!(failure.action_type, "summarize_thread_failed");
    let empty = summarize::ParsedSummary { summary: "".to_string(), language: "en".to_string() };
    assert_eq!(
        summarize::parse_response("{}", Ok(empty)).unwrap_err().message(),
        "cloud error: empty summary field"
    );
}

#[test]
fn all_messages_of_a_thread_are_asked_for() {
    let s = summarize::thread_statement(Uuid { bits: 2 });
    assert!(s.sql.ends_with(" WHERE thread_id = ?1 ORDER BY timestamp ASC LIMIT ?2"));
    match &s.params[1] {
        SqlValue::Integer(n) => assert_eq!(*n, 4_294_967_295),
        other => panic!("unexpected value: {:?}", other),
    }
}

#[test]
fn a_backend_failure_is_an_ai_error() {
    let down = backend_error(&CoreError::Connection("refused".to_string()));
    assert_eq!(down.message(), "ai error: connection error: refused");
    let own = backend_error(&CoreError::Ai("timeout".to_string()));
    assert_eq!(own.message(), "ai error: timeout");
}

#[test]
fn ordinary_texts_come_back_letter_for_letter() {
    let r = redactor(&["Ann Lee", "Ann", "O'Neil"]);
    let input = "ANN lee <ann@x.org> told O'NEIL: call +49 151 2345678, not ann. [x] on_it";
    let (text, map) = r.redact(input);
    assert_eq!(
        text,
        "[PERSON_1] <[PERSON_3]@x.org> told [PERSON_2]: call [PHONE_1], not [PERSON_3]. [x] on_it"
    );
    assert_eq!(Redactor::un_redact(&text, &map), input);
}

#[test]
fn the_stored_input_of_a_summary_is_cut() {
    let long = "z".repeat(2_500);
    let sent = outgoing(&long, &redactor(&[]), CloudConfig { redact: false });
    let parsed = summarize::ParsedSummary { summary: "s".to_string(), language: "en".to_string() };
    let plan = summarize::finish_summary(Uuid { bits: 2 }, Uuid { bits: 1 }, &sent, &parsed);
    assert_eq!(plan.input_redacted.len(), 2_000);
}

#[test]
fn a_search_is_asked_for_and_finished() {
    let filters = search::search_filters();
    assert_eq!(filters.top_k, Some(10));
    assert!(filters.para_folders.is_none());
    let profile = UserProfile { content: "me\n".to_string() };
    assert_eq!(search::search_context(&profile).user_profile_content, "me\n");
    let sent = outgoing("what", &redactor(&[]), CloudConfig { redact: false });
    let request = search::search_request(&sent, &vec![], &profile);
    assert_eq!(
        request.user,
        "# User query\nwhat\n\n# Retrieved vault chunks\n\
         - (no retriever configured — answer from profile + general knowledge only)\n\
         \n# User profile\nme\n\nAnswer the query using only the retrieved chunks.\n"
    );
    let chunk = RetrievedChunk {
        file_path: "a.md".to_string(),
        section_heading: None,
        content: format!("  {}", "q".repeat(500)),
        para_folder: None,
        distance: 0,
    };
    let none = UserProfile { content: String::new() };
    let request = search::search_request(&sent, &vec![chunk], &none);
    let line = format!("- [a.md — (no heading)] {}\n", "q".repeat(400));
    assert!(request.user.contains(&line));
    assert!(request.user.contains("# User profile\n- (no profile configured)\n"));
    let parsed = search::ParsedAnswer { answer: "this".to_string(), sources: vec![] };
    let plan = search::finish_search("what", &sent, &parsed);
    assert_eq!(plan.message_id, None);
    assert_eq!(plan.output, "this");
    assert_eq!(plan.log.entity_type, "query");
    assert_eq!(plan.log.entity_id, "what");
    let empty = search::ParsedAnswer { answer: " ".to_string(), sources: vec![] };
    assert_eq!(
        search::parse_response("{}", Ok(empty)).unwrap_err().message(),
        "cloud error: empty answer field"
    );
    let failure = search::search_failure("what", &CoreError::Cloud("x".to_string()));
    assert_eq!(failure.action_type, "smart_search_failed");
}
