use messagehub_core::error::CoreError;
use messagehub_core::hash::content_hash;
use messagehub_core::knowledge::embedder::{
    passage_texts, query_text, query_vector, EMBEDDING_DIM,
};
use messagehub_core::knowledge::indexer::{
    classify_entry, detect_para_folder, index_all, plan_index, plan_person, relative_path,
    DirEntry, EntryAction, IndexOutcome, IndexPlan, IndexingReport, Walk,
};
use messagehub_core::knowledge::parser::{approx_token_count, parse_markdown_file};
use messagehub_core::knowledge::people::extract_person;
use messagehub_core::knowledge::retrieval::{
    f32_slice_to_bytes, keep_top, plan_search, RetrievalFilters, RetrievedChunk,
};
use messagehub_core::knowledge::watcher::{
    event_is_markdown, is_markdown, is_markdown_extension, watch_action, ChangeKind, WatchAction,
};
use messagehub_core::knowledge::yaml::{read_yaml, YamlValue};
use messagehub_core::store::sql::SqlValue;

fn yaml(s: &str) -> YamlValue {
    read_yaml(s).unwrap()
}

// --- people ---

#[test]
fn only_the_type_person_is_that_of_a_person() {
    let people = |t: &str| {
        let fm = yaml(&format!("name: Ada\n{}", t));
        extract_person("p.md", &fm).unwrap().is_some()
    };
    assert!(people(""));
    assert!(people("type: person\n"));
    assert!(people("type:\n"));
    assert!(people("type: null\n"));
    assert!(!people("type: [person]\n"));
    assert!(!people("type: 1\n"));
    assert!(!people("type: project\n"));
}

#[test]
fn test_extract_basic_person() {
    let fm = yaml(
        r#"
type: person
name: "Alix Moreau"
role: "Daughter"
tags: [person, family]
last-contact: "2026-04-12"
"#,
    );
    let person = extract_person("05-People/Alix Moreau.md", &fm).unwrap().unwrap();
    assert_eq!(person.name, "Alix Moreau");
    assert_eq!(person.role.as_deref(), Some("Daughter"));
    assert_eq!(person.tags, vec!["person", "family"]);
    assert_eq!(person.last_contact.as_deref(), Some("2026-04-12"));
}

#[test]
fn test_extract_skips_non_person() {
    let fm = yaml(
        r#"
type: project
name: "Project X"
"#,
    );
    assert!(extract_person("01-Projects/Project X.md", &fm).unwrap().is_none());
}

#[test]
fn test_extract_skips_missing_name() {
    let fm = yaml(
        r#"
type: person
role: "Unknown"
"#,
    );
    assert!(extract_person("05-People/Unknown.md", &fm).unwrap().is_none());
}

#[test]
fn test_extract_emails_from_string() {
    let fm = yaml(
        r#"
name: "Test"
email: "test@example.com"
"#,
    );
    let person = extract_person("p.md", &fm).unwrap().unwrap();
    assert_eq!(person.addresses.len(), 1);
    assert_eq!(person.addresses[0].channel, "Email");
    assert_eq!(person.addresses[0].address, "test@example.com");
}

#[test]
fn test_extract_emails_from_list() {
    let fm = yaml(
        r#"
name: "Test"
emails:
  - "a@example.com"
  - "b@example.com"
"#,
    );
    let person = extract_person("p.md", &fm).unwrap().unwrap();
    assert_eq!(person.addresses.len(), 2);
}

#[test]
fn test_extract_email_accounts_structure() {
    let fm = yaml(
        r#"
name: "Jocelyn"
email-accounts:
  - address: "a@gmail.com"
    provider: gmail
  - address: "b@company.com"
    provider: ms365
"#,
    );
    let person = extract_person("p.md", &fm).unwrap().unwrap();
    assert_eq!(person.addresses.len(), 2);
    assert!(person.addresses.iter().all(|a| a.channel == "Email"));
}

#[test]
fn test_extract_multiple_channels() {
    let fm = yaml(
        r#"
name: "Test"
email: "t@example.com"
telegram: "@testuser"
whatsapp: "+491234567"
"#,
    );
    let person = extract_person("p.md", &fm).unwrap().unwrap();
    let channels: Vec<&str> = person.addresses.iter().map(|a| a.channel.as_str()).collect();
    assert!(channels.contains(&"Email"));
    assert!(channels.contains(&"Telegram"));
    assert!(channels.contains(&"WhatsApp"));
}

#[test]
fn test_duplicates_are_deduplicated() {
    let fm = yaml(
        r#"
name: "Test"
email: "t@example.com"
emails:
  - "t@example.com"
  - "other@example.com"
"#,
    );
    let person = extract_person("p.md", &fm).unwrap().unwrap();
    assert_eq!(person.addresses.len(), 2);
}

#[test]
fn addresses_keep_the_order_of_their_fields() {
    let fm = yaml("name: T\nteams: x\nsms: [1, \"2\"]\nphone-whatsapp: w\ntelegram-username: t");
    let person = extract_person("p.md", &fm).unwrap().unwrap();
    let got: Vec<(&str, &str)> =
        person.addresses.iter().map(|a| (a.channel.as_str(), a.address.as_str())).collect();
    assert_eq!(
        got,
        vec![("Telegram", "t"), ("WhatsApp", "w"), ("Sms", "2"), ("Teams", "x")]
    );
}

// --- YAML ---

#[test]
fn yaml_is_read_as_a_tree() {
    let v = yaml("a: !t {b: [1, x]}\nc: null");
    let a = v.get("a").unwrap();
    assert!(matches!(a, YamlValue::Tagged(_, _)));
    let items = a.get("b").unwrap().as_sequence().unwrap();
    assert!(matches!(items[0], YamlValue::Number(_)));
    assert_eq!(items[1].as_str(), Some("x"));
    assert!(matches!(v.get("c"), Some(YamlValue::Null)));
    assert!(v.get("d").is_none());
    assert!(read_yaml("a: [").is_err());
}

#[test]
fn yaml_is_written_as_json() {
    let v = yaml("name: Ada\nage: 36\nratio: 1.5\nok: true\nnone: null\ntags: [a, b]");
    assert_eq!(
        v.to_json().unwrap(),
        "{\"name\":\"Ada\",\"age\":36,\"ratio\":1.5,\"ok\":true,\"none\":null,\"tags\":[\"a\",\"b\"]}"
    );
    assert!(yaml("? [a, b]\n: c").to_json().is_err());
}

// --- markdown files ---

#[test]
fn a_file_is_split_at_its_headings() {
    let file = parse_markdown_file(
        "---\nname: Ada\n---\nintro\n\n# One\ntext\n### deep\nmore\n## Two\n#no\n",
    )
    .unwrap();
    assert_eq!(file.frontmatter.unwrap().get_string("name").as_deref(), Some("Ada"));
    assert_eq!(file.sections.len(), 3);
    assert_eq!(file.sections[0].heading, None);
    assert_eq!(file.sections[0].content, "intro");
    assert_eq!(file.sections[0].level, 0);
    assert_eq!(file.sections[1].heading.as_deref(), Some("One"));
    assert_eq!(file.sections[1].content, "text\n### deep\nmore");
    assert_eq!(file.sections[1].level, 1);
    assert_eq!(file.sections[2].heading.as_deref(), Some("Two"));
    assert_eq!(file.sections[2].content, "#no");
    assert_eq!(file.sections[2].level, 2);
    assert_eq!(file.sections[1].tokens, 5);
    assert_eq!(file.total_tokens, 2 + 5 + 1);
}

#[test]
fn a_file_without_frontmatter_is_body() {
    let file = parse_markdown_file("\u{feff}plain").unwrap();
    assert!(file.frontmatter.is_none());
    assert_eq!(file.sections[0].content, "plain");
    let open = parse_markdown_file("---\na: 1\nnever closed").unwrap();
    assert!(open.frontmatter.is_none());
    assert_eq!(open.sections[0].content, "---\na: 1\nnever closed");
    assert!(parse_markdown_file("").unwrap().sections.is_empty());
}

#[test]
fn the_closing_line_is_no_part_of_the_body() {
    let file = parse_markdown_file("---\n---").unwrap();
    assert!(file.frontmatter.is_some());
    assert!(file.sections.is_empty());
    assert_eq!(file.total_tokens, 0);
    let file = parse_markdown_file("---\nname: A\n---").unwrap();
    assert_eq!(file.frontmatter.unwrap().get_string("name").as_deref(), Some("A"));
    assert!(file.sections.is_empty());
    let file = parse_markdown_file("---\n---\n---").unwrap();
    assert_eq!(file.sections[0].content, "---");
}

#[test]
fn a_bad_frontmatter_is_an_error() {
    let err = parse_markdown_file("---\na: [\n---\nbody").unwrap_err();
    match err {
        CoreError::VaultParse(m) => assert!(m.starts_with("invalid YAML frontmatter: ")),
        other => panic!("unexpected error: {:?}", other),
    }
}

#[test]
fn the_hash_is_that_of_the_whole_file() {
    assert_eq!(
        content_hash(""),
        "af1349b9f5f9a1a6a0404dea36dcc9499bcb25c9adc112b7cc9a93cae41f3262"
    );
    let file = parse_markdown_file("x").unwrap();
    assert_eq!(file.content_hash, content_hash("x"));
    assert_ne!(content_hash("x"), content_hash("y"));
}

#[test]
fn tokens_are_counted_in_fours() {
    assert_eq!(approx_token_count(""), 0);
    assert_eq!(approx_token_count("é"), 1);
    assert_eq!(approx_token_count("abcd"), 1);
    assert_eq!(approx_token_count("abcde"), 2);
}

// --- indexing ---

#[test]
fn test_detect_para_folder_recognizes_known() {
    assert_eq!(detect_para_folder("05-People/Alice.md"), Some("05-People".to_string()));
    assert_eq!(detect_para_folder("01-Projects/X/notes.md"), Some("01-Projects".to_string()));
    assert_eq!(detect_para_folder("07-Daily/2026-04-17.md"), Some("07-Daily".to_string()));
}

#[test]
fn test_detect_para_folder_unknown_returns_none() {
    assert_eq!(detect_para_folder("notes.md"), None);
    assert_eq!(detect_para_folder("Random/file.md"), None);
    assert_eq!(detect_para_folder("08-Other/x.md"), None);
}

fn entry(path: &str, is_dir: bool) -> DirEntry {
    let name = path.rsplit('/').next().unwrap().to_string();
    let extension = match name.rfind('.') {
        Some(i) if i > 0 => Some(name[i + 1..].to_string()),
        _ => None,
    };
    DirEntry { path: path.to_string(), name: Some(name), is_dir, extension }
}

#[test]
fn test_walk_markdown_files_skips_hidden_and_non_md() {
    let mut walk = Walk::new("/v", true);
    while let Some(dir) = walk.next_dir() {
        let entries = match dir.as_str() {
            "/v" => vec![
                entry("/v/01-Projects", true),
                entry("/v/.obsidian", true),
                entry("/v/readme.txt", false),
                entry("/v/b.md", false),
            ],
            "/v/01-Projects" => vec![entry("/v/01-Projects/a.md", false)],
            "/v/.obsidian" => vec![entry("/v/.obsidian/workspace.json", false)],
            other => panic!("unexpected directory {}", other),
        };
        walk.visit(&entries);
    }
    let found = walk.into_found();
    assert_eq!(found.len(), 2);
    assert!(found.iter().any(|p| p.ends_with("a.md")));
    assert!(found.iter().any(|p| p.ends_with("b.md")));
}

#[test]
fn entries_are_told_apart() {
    assert_eq!(classify_entry(&entry("/v/d.md", true)), EntryAction::Descend);
    assert_eq!(classify_entry(&entry("/v/x.MD", false)), EntryAction::Pass);
    assert_eq!(classify_entry(&entry("/v/.x.md", false)), EntryAction::Pass);
    assert!(Walk::new("/v", false).next_dir().is_none());
}

#[test]
fn paths_are_relative_to_the_vault() {
    assert_eq!(relative_path(Some("a\\b.md"), "/v/a\\b.md", "/v").unwrap(), "a/b.md");
    assert_eq!(
        relative_path(None, "/x/b.md", "/v").unwrap_err().message(),
        "knowledge error: /x/b.md is not under vault root /v"
    );
}

#[test]
fn the_report_counts_every_file() {
    let outcomes = vec![
        Ok(IndexOutcome::Indexed { is_new: true, is_person: true }),
        Ok(IndexOutcome::Indexed { is_new: false, is_person: false }),
        Ok(IndexOutcome::Skipped),
        Err(CoreError::Knowledge("x".to_string())),
    ];
    assert_eq!(
        index_all(&outcomes),
        IndexingReport {
            files_scanned: 4,
            files_indexed: 1,
            files_reindexed: 1,
            files_skipped: 1,
            files_failed: 1,
            people_indexed: 1,
        }
    );
    assert_eq!(IndexingReport::default().files_scanned, 0);
}

#[test]
fn an_unchanged_file_is_skipped() {
    let hash = content_hash("x");
    let file = parse_markdown_file("x").unwrap();
    assert!(matches!(plan_index("a.md", file, &Some(hash)), IndexPlan::Skip));
    let file = parse_markdown_file("x").unwrap();
    match plan_index("01-Projects/a.md", file, &Some("other".to_string())) {
        IndexPlan::Store { is_new, para_folder, .. } => {
            assert!(!is_new);
            assert_eq!(para_folder.as_deref(), Some("01-Projects"));
        }
        IndexPlan::Skip => panic!("the file has changed"),
    }
}

#[test]
fn blank_sections_are_left_out() {
    let file =
        parse_markdown_file("---\nname: Ada\n---\n# Empty\n\n# Full\ntext").unwrap();
    match plan_index("05-People/Ada.md", file, &None) {
        IndexPlan::Store { is_new, para_folder, kept } => {
            assert!(is_new);
            assert_eq!(kept.sections.len(), 1);
            assert_eq!(kept.sections[0].content, "text");
            let person = plan_person("05-People/Ada.md", &para_folder, &kept).unwrap().unwrap();
            assert_eq!(person.name, "Ada");
            assert_eq!(person.file_path, "05-People/Ada.md");
            assert!(plan_person("x", &None, &kept).unwrap().is_none());
        }
        IndexPlan::Skip => panic!("the file is new"),
    }
}

// --- search ---

#[test]
fn test_f32_slice_to_bytes_little_endian() {
    let bytes = f32_slice_to_bytes(&[1.0_f32.to_bits()]);
    assert_eq!(bytes, vec![0x00, 0x00, 0x80, 0x3F]);
}

#[test]
fn test_f32_slice_to_bytes_multiple() {
    let input = [1.0_f32, -1.0_f32, 0.0_f32];
    let bits: Vec<u32> = input.iter().map(|f| f.to_bits()).collect();
    let bytes = f32_slice_to_bytes(&bits);
    assert_eq!(bytes.len(), input.len() * 4);
    let round_trip: Vec<f32> = bytes
        .chunks_exact(4)
        .map(|c| f32::from_le_bytes([c[0], c[1], c[2], c[3]]))
        .collect();
    assert_eq!(round_trip, input);
}

#[test]
fn test_retrieval_filters_default() {
    let f = RetrievalFilters::default();
    assert!(f.para_folders.is_none());
    assert!(f.top_k.is_none());
}

fn integer(v: &SqlValue) -> i64 {
    match v {
        SqlValue::Integer(n) => *n,
        other => panic!("not an integer: {:?}", other),
    }
}

fn text(v: &SqlValue) -> &str {
    match v {
        SqlValue::Text(s) => s,
        other => panic!("not a text: {:?}", other),
    }
}

#[test]
fn a_search_asks_for_more_than_it_returns() {
    let plan = plan_search(&RetrievalFilters::default(), &[1]).unwrap();
    assert_eq!(plan.top_k, 5);
    assert_eq!(plan.statement.params.len(), 2);
    assert_eq!(integer(&plan.statement.params[1]), 20);
    assert!(plan.statement.sql.ends_with("k = ?2\n             ORDER BY v.distance"));
    let filters = RetrievalFilters {
        para_folders: Some(vec!["05-People".to_string(), "a\"b".to_string()]),
        top_k: Some(7),
    };
    let plan = plan_search(&filters, &[1]).unwrap();
    assert_eq!(integer(&plan.statement.params[1]), 28);
    assert_eq!(text(&plan.statement.params[2]), "[\"05-People\",\"a\\\"b\"]");
    assert!(plan.statement.sql.contains("IN (SELECT value FROM json_each(?3))"));
    match &plan.statement.params[0] {
        SqlValue::Blob(b) => assert_eq!(b, &vec![1, 0, 0, 0]),
        other => panic!("not a blob: {:?}", other),
    }
}

#[test]
fn only_the_first_rows_are_kept() {
    let row = |p: &str| RetrievedChunk {
        file_path: p.to_string(),
        section_heading: None,
        content: String::new(),
        para_folder: None,
        distance: 0,
    };
    let kept = keep_top(vec![row("a"), row("b"), row("c")], 2);
    assert_eq!(kept.len(), 2);
    assert_eq!(kept[1].file_path, "b");
}

#[test]
fn texts_are_prefixed_for_the_model() {
    assert_eq!(EMBEDDING_DIM, 384);
    assert_eq!(passage_texts(&vec!["a".to_string()]), vec!["passage: a"]);
    assert_eq!(query_text("q"), "query: q");
    assert_eq!(query_vector(vec![1, 2]).unwrap(), 2);
    let none: Vec<u8> = vec![];
    assert_eq!(
        query_vector(none).unwrap_err().message(),
        "embedding error: empty embedding result"
    );
}

// --- watching ---

#[test]
fn a_plain_markdown_path_is_enough() {
    let paths = vec!["a\\b.txt".to_string(), "note.md".to_string()];
    assert!(event_is_markdown(&paths));
    assert!(!event_is_markdown(&vec![String::new(), "note.txt".to_string()]));
}

#[test]
fn is_markdown_matches_md_extension() {
    assert!(is_markdown("note.md"));
    assert!(is_markdown("/vault/01-Projects/a.md"));
}

#[test]
fn is_markdown_is_case_insensitive() {
    assert!(is_markdown("NOTE.MD"));
    assert!(is_markdown("note.Md"));
}

#[test]
fn is_markdown_rejects_non_md() {
    assert!(!is_markdown("note.txt"));
    assert!(!is_markdown("README"));
    assert!(!is_markdown("archive.md.bak"));
    assert!(!is_markdown(""));
}

#[test]
fn event_is_markdown_requires_at_least_one_md_path() {
    let mut paths = vec!["note.txt".to_string()];
    assert!(!event_is_markdown(&paths));
    paths.push("note.md".to_string());
    assert!(event_is_markdown(&paths));
}

#[test]
fn slashes_and_dots_at_the_end_do_not_count() {
    assert!(is_markdown("/vault/note.md/"));
    assert!(is_markdown("note.md/.//"));
    assert!(is_markdown("10:30 meeting.md"));
    assert!(!is_markdown("note.md/.."));
    assert!(!is_markdown("a.md/b"));
    assert!(!is_markdown("/"));
    assert!(!is_markdown("."));
    assert!(!is_markdown("note.md."));
    assert!(event_is_markdown(&vec!["a:b.txt".to_string(), "x:y/n.md/".to_string()]));
}

#[test]
fn hidden_files_have_no_extension() {
    assert!(!is_markdown("/v/.md"));
    assert!(!is_markdown_extension(None));
    assert!(is_markdown_extension(Some("mD")));
}

#[test]
fn events_lead_to_actions() {
    assert_eq!(watch_action(ChangeKind::Create, true), WatchAction::Index);
    assert_eq!(watch_action(ChangeKind::Modify, true), WatchAction::Index);
    assert_eq!(watch_action(ChangeKind::Remove, true), WatchAction::Remove);
    assert_eq!(watch_action(ChangeKind::Other, true), WatchAction::Ignore);
    assert_eq!(watch_action(ChangeKind::Create, false), WatchAction::Ignore);
}
