use arxiv_bot::date::parse_timestamp;
use arxiv_bot::handler::Handler;
use arxiv_bot::paper::{
    arxiv_query_url, citation_graph_url, get_paper_info, is_plain_identifier, ArxivEntry,
    CitationAuthor, CitationGraph, ResolutionError,
};
use arxiv_bot::publish::{publish_plan, truncate_title, MessageOut};

fn sample_entry() -> ArxivEntry {
    ArxivEntry {
        title: "A Paper About Things".to_string(),
        summary: "We study things.".to_string(),
        published: "2023-01-15T10:30:00Z".to_string(),
    }
}

fn sample_graph() -> CitationGraph {
    CitationGraph {
        paper_id: "abc123".to_string(),
        authors: vec![
            CitationAuthor {
                name: "Ada Lovelace".to_string(),
                author_id: Some("99".to_string()),
            },
            CitationAuthor {
                name: "Alan Turing".to_string(),
                author_id: None,
            },
        ],
    }
}

#[test]
fn timestamp_accepts_the_fixed_form() {
    let t = parse_timestamp("2023-01-15T10:30:00Z").expect("valid");
    assert_eq!(
        (t.year, t.month, t.day, t.hour, t.minute, t.second),
        (2023, 1, 15, 10, 30, 0)
    );
    assert_eq!(t.to_display_string(), "2023-01-15 10:30:00");
}

#[test]
fn timestamp_rejects_other_shapes() {
    assert_eq!(parse_timestamp(""), None);
    assert_eq!(parse_timestamp("2023-1-15T10:30:00Z"), None);
    assert_eq!(parse_timestamp("2023-01-15 10:30:00"), None);
    assert_eq!(parse_timestamp("2023-01-15T10:30:00Z "), None);
    assert_eq!(parse_timestamp("2023-13-01T00:00:00Z"), None);
    assert_eq!(parse_timestamp("2023-00-01T00:00:00Z"), None);
    assert_eq!(parse_timestamp("2023-01-32T00:00:00Z"), None);
    assert_eq!(parse_timestamp("2023-01-00T00:00:00Z"), None);
    assert_eq!(parse_timestamp("2023-01-15T24:00:00Z"), None);
    assert_eq!(parse_timestamp("2023-01-15T10:60:00Z"), None);
    assert_eq!(parse_timestamp("2023-01-15T10:30:60Z"), None);
}

#[test]
fn timestamp_knows_the_calendar() {
    assert_eq!(parse_timestamp("2023-02-29T00:00:00Z"), None);
    assert!(parse_timestamp("2024-02-29T00:00:00Z").is_some());
    assert_eq!(parse_timestamp("1900-02-29T00:00:00Z"), None);
    assert!(parse_timestamp("2000-02-29T00:00:00Z").is_some());
    assert_eq!(parse_timestamp("2023-04-31T00:00:00Z"), None);
    assert!(parse_timestamp("2023-04-30T00:00:00Z").is_some());
}

#[test]
fn query_urls() {
    assert_eq!(
        arxiv_query_url("2301.12345"),
        "http://export.arxiv.org/api/query?id_list=2301.12345"
    );
    assert!(is_plain_identifier("2301.12345"));
    assert!(!is_plain_identifier("2301.12345?x"));
    assert_eq!(
        citation_graph_url("2301.12345"),
        "https://api.semanticscholar.org/graph/v1/paper/url:https%3A%2F%2Farxiv.org%2Fabs%2F2301.12345?fields=authors"
    );
}

#[test]
fn resolution_success_pins_every_field() {
    let paper = get_paper_info(
        Ok(sample_entry()),
        Ok(sample_graph()),
        Ok("Wir untersuchen Dinge.".to_string()),
    )
    .expect("all parts succeeded");
    assert_eq!(paper.title, "A Paper About Things");
    assert_eq!(paper.summary, "We study things.");
    assert_eq!(paper.translated_summary, "Wir untersuchen Dinge.");
    assert_eq!(paper.published.year, 2023);
    assert_eq!(
        paper.semantic_scholar_url,
        "https://www.semanticscholar.org/paper/abc123"
    );
    assert_eq!(
        paper.connected_papers_url,
        "https://www.connectedpapers.com/main/abc123"
    );
    assert_eq!(paper.authors.len(), 2);
    assert_eq!(paper.authors[0].name, "Ada Lovelace");
    assert_eq!(
        paper.authors[0].author_url.as_deref(),
        Some("https://www.semanticscholar.org/author/99")
    );
    assert_eq!(paper.authors[1].name, "Alan Turing");
    assert_eq!(paper.authors[1].author_url, None);
}

#[test]
fn translation_failure_is_terminal() {
    let r = get_paper_info(
        Ok(sample_entry()),
        Ok(sample_graph()),
        Err("service unreachable".to_string()),
    );
    match r {
        Err(ResolutionError::Translation(cause)) => {
            assert_eq!(cause, "service unreachable");
        }
        Err(other) => panic!("wrong error: {}", other.describe()),
        Ok(_) => panic!("a paper must not come back with an untranslated summary"),
    }
}

#[test]
fn each_upstream_failure_collapses() {
    let r = get_paper_info(
        Err("404".to_string()),
        Ok(sample_graph()),
        Ok("t".to_string()),
    );
    assert!(matches!(r, Err(ResolutionError::MetadataFetch(ref m)) if m == "404"));
    let r = get_paper_info(
        Ok(sample_entry()),
        Err("timeout".to_string()),
        Ok("t".to_string()),
    );
    assert!(matches!(r, Err(ResolutionError::CitationFetch(ref m)) if m == "timeout"));
    let mut entry = sample_entry();
    entry.published = "January 15th".to_string();
    let r = get_paper_info(Ok(entry), Ok(sample_graph()), Ok("t".to_string()));
    assert!(matches!(r, Err(ResolutionError::TimestampFormat(ref m)) if m == "January 15th"));
}

#[test]
fn empty_title_is_a_metadata_error() {
    let mut entry = sample_entry();
    entry.title = String::new();
    let r = get_paper_info(Ok(entry), Ok(sample_graph()), Ok("t".to_string()));
    match r {
        Err(ResolutionError::MetadataFetch(cause)) => {
            assert_eq!(cause, "metadata entry has an empty title");
        }
        Err(other) => panic!("wrong error: {}", other.describe()),
        Ok(_) => panic!("a paper must never carry an empty title"),
    }
}

#[test]
fn author_without_identifier_renders_plain() {
    let graph = CitationGraph {
        paper_id: "p".to_string(),
        authors: vec![CitationAuthor {
            name: "Solo Author".to_string(),
            author_id: None,
        }],
    };
    let paper = get_paper_info(Ok(sample_entry()), Ok(graph), Ok("t".to_string())).unwrap();
    let plan = publish_plan(&paper);
    match &plan.messages[0] {
        MessageOut::Embed(card) => {
            assert_eq!(card.authors, "Solo Author");
            assert!(!card.authors.contains('['));
        }
        MessageOut::Content(_) => panic!("first message must be the card"),
    }
}

#[test]
fn title_truncation_counts_characters() {
    let long: String = "あ".repeat(150);
    let cut = truncate_title(&long);
    assert_eq!(cut.chars().count(), 100);
    assert_eq!(cut, "あ".repeat(100));
    let ascii: String = "x".repeat(150);
    assert_eq!(truncate_title(&ascii).chars().count(), 100);
    assert_eq!(truncate_title("short"), "short");
}

#[test]
fn publish_plan_orders_three_messages() {
    let paper = get_paper_info(
        Ok(sample_entry()),
        Ok(sample_graph()),
        Ok("Wir untersuchen Dinge.".to_string()),
    )
    .unwrap();
    let plan = publish_plan(&paper);
    assert_eq!(plan.thread_name, "A Paper About Things");
    assert_eq!(plan.messages.len(), 3);
    match &plan.messages[0] {
        MessageOut::Embed(card) => {
            assert_eq!(card.title, "A Paper About Things");
            assert_eq!(card.published, "2023-01-15 10:30:00");
            assert_eq!(
                card.authors,
                "[Ada Lovelace](https://www.semanticscholar.org/author/99), Alan Turing"
            );
        }
        MessageOut::Content(_) => panic!("first message must be the card"),
    }
    match &plan.messages[1] {
        MessageOut::Content(text) => {
            assert_eq!(text, "**Summary:** ```We study things.```");
        }
        MessageOut::Embed(_) => panic!("second message must be the original abstract"),
    }
    match &plan.messages[2] {
        MessageOut::Content(text) => {
            assert_eq!(text, "**Translated:** ```Wir untersuchen Dinge.```");
        }
        MessageOut::Embed(_) => panic!("third message must be the translated abstract"),
    }
}

#[test]
fn disabled_channel_triggers_nothing() {
    let handler = Handler::new(None);
    assert_eq!(
        handler.message_trigger(42, "a message in C containing 2301.12345"),
        None
    );
}

#[test]
fn enabled_channel_full_flow() {
    let mut handler = Handler::new(None);
    let effect = handler
        .interaction_create("enable", 42)
        .expect("enable is a known command");
    assert_eq!(effect.reply, "Enabled the bot in this channel");
    assert_eq!(effect.persisted, "[42]");

    // the enabled set survives a restart through the persisted text
    let restarted = Handler::new(Some(&effect.persisted));
    let id = restarted
        .message_trigger(42, "see 2301.12345 for details")
        .expect("enabled channel with an identifier");
    assert_eq!(id, "2301.12345");

    let paper = get_paper_info(
        Ok(sample_entry()),
        Ok(sample_graph()),
        Ok("Wir untersuchen Dinge.".to_string()),
    )
    .unwrap();
    let plan = publish_plan(&paper);
    assert_eq!(plan.thread_name, "A Paper About Things");
    assert_eq!(plan.messages.len(), 3);
    assert!(matches!(plan.messages[0], MessageOut::Embed(_)));
    assert!(matches!(&plan.messages[1], MessageOut::Content(t) if t.starts_with("**Summary:** ```")));
    assert!(matches!(&plan.messages[2], MessageOut::Content(t) if t.starts_with("**Translated:** ```")));
}

#[test]
fn thread_created_under_enabled_parent() {
    let mut handler = Handler::new(None);
    handler.interaction_create("enable", 7).unwrap();
    let id = handler
        .thread_trigger(Some(7), "discussing 1912.01234 results")
        .expect("enabled parent and an identifier in the title");
    assert_eq!(id, "1912.01234");
    // no parent, or a disabled parent, triggers nothing
    assert_eq!(handler.thread_trigger(None, "discussing 1912.01234 results"), None);
    assert_eq!(
        handler.thread_trigger(Some(8), "discussing 1912.01234 results"),
        None
    );
}

#[test]
fn disable_command_closes_the_channel() {
    let mut handler = Handler::new(None);
    handler.interaction_create("enable", 42).unwrap();
    assert!(handler.message_trigger(42, "2301.12345").is_some());
    let effect = handler.interaction_create("disable", 42).unwrap();
    assert_eq!(effect.reply, "Disabled the bot in this channel");
    assert_eq!(effect.persisted, "[]");
    assert_eq!(handler.message_trigger(42, "2301.12345"), None);
}

#[test]
fn unknown_command_is_ignored() {
    let mut handler = Handler::new(None);
    assert!(handler.interaction_create("frobnicate", 42).is_none());
    assert_eq!(handler.message_trigger(42, "2301.12345"), None);
}

#[test]
fn enabled_channel_without_identifier_triggers_nothing() {
    let mut handler = Handler::new(None);
    handler.interaction_create("enable", 42).unwrap();
    assert_eq!(handler.message_trigger(42, "no identifier here"), None);
}
