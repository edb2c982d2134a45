use axis::router::decision_from_members;
use axis::transcript::{collect_search_results, ScrapedResult};
use axis::actions::{has_command_marker, parse_command, parse_command_chain, parse_u64, Command};
use axis::router::{
    decide_from_reply, decode_decision, default_reason, default_strategy, ensemble_reply,
    extract_json_span, fallback_decision, worker_for, Worker,
};
use axis::sanitize::sanitize_ai_output;
use axis::transcript::{
    final_answer, report_instruction, search_needs_fallback, worker_reply_text, SearchResult,
    Transcript,
};

fn chars(s: &str) -> Vec<char> {
    s.chars().collect()
}

#[test]
fn sanitize_drops_conversation_label() {
    assert_eq!(sanitize_ai_output("CONVERSATION: hi"), "hi");
}

#[test]
fn sanitize_keeps_last_paragraph_after_rationale() {
    assert_eq!(sanitize_ai_output("Therefore, X.\n\nFinal answer."), "Final answer.");
}

#[test]
fn sanitize_keeps_text_after_natural_response_marker() {
    let s = "To classify this...\nHere's a natural response: Hello there ";
    assert_eq!(sanitize_ai_output(s), "Hello there");
}

#[test]
fn sanitize_passes_plain_text_through() {
    assert_eq!(sanitize_ai_output("  plain answer \n"), "plain answer");
    assert_eq!(sanitize_ai_output(""), "");
}

#[test]
fn sanitize_without_blank_line_keeps_marker_text() {
    assert_eq!(sanitize_ai_output("Therefore, yes."), "Therefore, yes.");
}

#[test]
fn router_defaults() {
    assert_eq!(default_strategy(), "general");
    assert_eq!(default_reason(), "Default decision");
    let f = fallback_decision();
    assert_eq!(f.target, "gpt");
    assert_eq!(f.strategy, "fallback");
    assert_eq!(f.reason, "parse failed");
}

#[test]
fn router_malformed_reply_falls_back() {
    for raw in ["not json at all", "{\"target\": ", "{\"reason\": \"x\"}", "{\"target\": 5}", "} {"] {
        let d = decide_from_reply(&Ok(raw.to_string()));
        assert_eq!(d.target, "gpt", "{}", raw);
        assert_eq!(d.strategy, "fallback");
        assert_eq!(d.reason, "parse failed");
    }
}

#[test]
fn router_failed_call_falls_back() {
    let d = decide_from_reply(&Err("timeout".to_string()));
    assert_eq!(d.target, "gpt");
    assert_eq!(d.reason, "parse failed");
}

#[test]
fn router_reads_json_inside_prose() {
    let raw = "Sure! {\"target\": \"grok\", \"task_type\": \"math_solve\", \"reason\": \"math\"} done";
    let d = decide_from_reply(&Ok(raw.to_string()));
    assert_eq!(d.target, "grok");
    assert_eq!(d.task_type, "math_solve");
    assert_eq!(d.reason, "math");
    assert_eq!(d.strategy, "general");
}

#[test]
fn router_fills_defaults() {
    let d = decode_decision("{\"target\": \"gemini\"}").unwrap();
    assert_eq!(d.target, "gemini");
    assert_eq!(d.strategy, "general");
    assert_eq!(d.reason, "Default decision");
    assert_eq!(d.task_type, "");
}

#[test]
fn router_span_is_first_balanced() {
    let s = chars("x {\"a\": {\"b\": 1}} y {z}");
    let span: String = extract_json_span(&s).unwrap().into_iter().collect();
    assert_eq!(span, "{\"a\": {\"b\": 1}}");
    assert!(extract_json_span(&chars("{ unclosed")).is_none());
    assert!(extract_json_span(&chars("no braces")).is_none());
}

#[test]
fn router_worker_selection() {
    assert_eq!(worker_for("gpt"), Worker::Gpt);
    assert_eq!(worker_for("gemini"), Worker::Gemini);
    assert_eq!(worker_for("grok"), Worker::Grok);
    assert_eq!(worker_for("ensemble"), Worker::Ensemble);
    assert_eq!(worker_for("llama"), Worker::Local);
    assert_eq!(worker_for("GPT"), Worker::Local);
}

#[test]
fn router_ensemble_labels_both_answers() {
    let r = ensemble_reply(&Ok("four".to_string()), &Err("down".to_string()));
    assert_eq!(r, "GPT: four\nGemini: ");
    let r = ensemble_reply(&Ok("a".to_string()), &Ok("b".to_string()));
    assert!(r.contains("GPT: a") && r.contains("Gemini: b"));
}

#[test]
fn chain_search_marker_wins_over_separator() {
    let cmds = parse_command_chain("SEARCH: weather ||| X");
    assert_eq!(cmds.len(), 1);
    match &cmds[0] {
        Command::Search { query } => assert_eq!(query, "weather ||| X"),
        _ => panic!("expected a search"),
    }
}

#[test]
fn chain_save_with_separator() {
    let cmds = parse_command_chain("SAVE: a.txt ||| hello");
    match &cmds[0] {
        Command::Save { filename, content } => {
            assert_eq!(filename, "a.txt");
            assert_eq!(content, "hello");
        }
        _ => panic!("expected a save"),
    }
    let mut t = Transcript::new();
    t.note_save(&Ok("/home/u/Desktop/a.txt".to_string()));
    assert_eq!(t.text(), "[System] File saved successfully: /home/u/Desktop/a.txt\n");
}

#[test]
fn chain_save_without_separator_is_invalid() {
    let cmds = parse_command_chain("SAVE: badformat");
    assert!(matches!(cmds[0], Command::SaveInvalid));
    let mut t = Transcript::new();
    t.note_invalid_save();
    assert!(t.text().contains("Invalid format"));
}

#[test]
fn chain_tolerates_execute_prefix() {
    match &parse_command(&chars("EXECUTE SAVE: r.md ||| # Title")) {
        Command::Save { filename, content } => {
            assert_eq!(filename, "r.md");
            assert_eq!(content, "# Title");
        }
        _ => panic!("expected a save"),
    }
}

#[test]
fn chain_splits_and_skips() {
    let cmds = parse_command_chain("EXEC: notepad && NO &&  && TYPE: hi @ Notepad && PRESS: enter && WAIT: 500 && WAIT: soon && DANCE");
    assert_eq!(cmds.len(), 6);
    assert!(matches!(&cmds[0], Command::Exec { app } if app == "notepad"));
    assert!(matches!(&cmds[1], Command::Type { text, target: Some(w) } if text == "hi" && w == "Notepad"));
    assert!(matches!(&cmds[2], Command::Press { key } if key == "enter"));
    assert!(matches!(&cmds[3], Command::Wait { ms: Some(500) }));
    assert!(matches!(&cmds[4], Command::Wait { ms: None }));
    assert!(matches!(&cmds[5], Command::Ignored));
}

#[test]
fn chain_type_without_target() {
    assert!(matches!(&parse_command(&chars("TYPE: hello")), Command::Type { text, target: None } if text == "hello"));
}

#[test]
fn chain_look_and_apps() {
    let cmds = parse_command_chain("LOOK && APPS");
    assert!(matches!(cmds[0], Command::Look));
    assert!(matches!(cmds[1], Command::Apps));
}

#[test]
fn chain_without_marker_is_an_answer() {
    assert!(!has_command_marker("Just a friendly reply."));
    assert!(parse_command_chain("Just a friendly reply. PRESS: enter").is_empty());
    assert!(has_command_marker("ok SEARCH: x"));
}

#[test]
fn wait_argument_parsing() {
    assert_eq!(parse_u64(&chars("0")), Some(0));
    assert_eq!(parse_u64(&chars("+42")), Some(42));
    assert_eq!(parse_u64(&chars("18446744073709551615")), Some(u64::MAX));
    assert_eq!(parse_u64(&chars("18446744073709551616")), None);
    assert_eq!(parse_u64(&chars("")), None);
    assert_eq!(parse_u64(&chars("+")), None);
    assert_eq!(parse_u64(&chars("-1")), None);
    assert_eq!(parse_u64(&chars("12a")), None);
}

#[test]
fn end_to_end_save_scenario() {
    let reply = sanitize_ai_output("SAVE: notes.txt ||| 2+2 = 4");
    assert!(has_command_marker(&reply));
    let cmds = parse_command_chain(&reply);
    assert_eq!(cmds.len(), 1);
    let mut t = Transcript::new();
    match &cmds[0] {
        Command::Save { filename, content } => {
            assert_eq!(filename, "notes.txt");
            assert_eq!(content, "2+2 = 4");
            t.note_save(&Ok(format!("Desktop/{}", filename)));
        }
        _ => panic!("expected a save"),
    }
    assert!(t.text().contains("File saved successfully"));
    assert_eq!(t.report_prompt(), format!("Report the result based on log:\n{}", t.text()));
    assert_eq!(report_instruction("gpt"), "Report briefly.");
    let answer = final_answer(&reply, &t, &Some(Ok("I saved the result to notes.txt.".to_string())));
    assert_eq!(answer, "I saved the result to notes.txt.");
}

#[test]
fn final_answer_rules() {
    let empty = Transcript::new();
    assert_eq!(final_answer("plain", &empty, &None), "plain");
    let mut t = Transcript::new();
    t.note_result("Typed: 'x'");
    assert_eq!(t.text(), "Typed: 'x'\n");
    assert_eq!(final_answer("plain", &t, &Some(Err("down".to_string()))), "Done.");
    assert_eq!(final_answer("plain", &t, &None), "Done.");
    assert_eq!(report_instruction("grok"), "Report witty.");
}

#[test]
fn worker_reply_error_text() {
    assert_eq!(worker_reply_text(&Ok("hi".to_string())), "hi");
    assert_eq!(worker_reply_text(&Err("API Error".to_string())), "Error: API Error");
}

fn result(t: &str, l: &str) -> SearchResult {
    SearchResult { title: t.to_string(), link: l.to_string(), snippet: String::new() }
}

#[test]
fn search_notes_use_fallback_order() {
    let primary: Result<Vec<SearchResult>, String> = Ok(vec![]);
    assert!(search_needs_fallback(&primary));
    let mut t = Transcript::new();
    t.note_search(&primary, &Some(Ok(vec![result("Sun", "https://a")])));
    assert_eq!(t.text(), "[Search Results: DuckDuckGo]\n- Sun (https://a)\n");

    let primary: Result<Vec<SearchResult>, String> = Ok(vec![result("Rain", "https://b")]);
    assert!(!search_needs_fallback(&primary));
    let mut t = Transcript::new();
    t.note_search(&primary, &None);
    assert_eq!(t.text(), "[Search Results: Grokipedia]\n- Rain (https://b)\n");

    let mut t = Transcript::new();
    t.note_search(&Err("x".to_string()), &Some(Err("net".to_string())));
    assert_eq!(t.text(), "Search Error (DDG): net\nNo search results found from both sources.\n");
}

#[test]
fn apps_note_lists_first_ten() {
    let apps: Vec<String> = (1..=12).map(|i| format!("App{}", i)).collect();
    let mut t = Transcript::new();
    t.note_apps(&apps);
    let text = t.text();
    assert!(text.starts_with("[System] Running Apps:\n1. App1\n"));
    assert!(text.contains("10. App10\n"));
    assert!(!text.contains("App11"));
}

#[test]
fn look_notes() {
    let mut t = Transcript::new();
    t.note_look(&Ok(Ok("a desktop".to_string())));
    assert_eq!(t.text(), "[System] Analyzed screen.\n\n[Vision Report]\na desktop\n");
    let mut t = Transcript::new();
    t.note_look(&Ok(Err("bad".to_string())));
    assert!(t.text().contains("[Vision Agent Error] bad"));
    let mut t = Transcript::new();
    t.note_look(&Err("no screen".to_string()));
    assert_eq!(t.text(), "[System] Screen capture failed: no screen\n");
}

#[test]
fn decision_from_decoded_members() {
    let d = decision_from_members(Ok(Some("grok".to_string())), Ok(None), Ok(Some("r".to_string())), Ok(None)).unwrap();
    assert_eq!((d.target.as_str(), d.strategy.as_str(), d.reason.as_str(), d.task_type.as_str()), ("grok", "general", "r", ""));
    assert!(decision_from_members(Ok(None), Ok(None), Ok(None), Ok(None)).is_none());
    assert!(decision_from_members(Ok(Some("gpt".to_string())), Err(()), Ok(None), Ok(None)).is_none());
}

#[test]
fn scraped_results_are_filtered() {
    let block = |t: Option<&str>, h: Option<&str>, s: Option<&str>| ScrapedResult {
        anchor_text: t.map(|x| x.to_string()),
        anchor_href: h.map(|x| x.to_string()),
        snippet: s.map(|x| x.to_string()),
    };
    let mut raw = vec![
        block(None, Some("https://skip"), Some("no anchor")),
        block(Some(""), Some("https://empty"), None),
        block(Some("First"), None, None),
    ];
    for i in 0..6 {
        raw.push(block(Some(&format!("R{}", i)), Some("https://r"), Some("s")));
    }
    let got = collect_search_results(&raw);
    assert_eq!(got.len(), 5);
    assert_eq!(got[0].title, "First");
    assert_eq!(got[0].link, "");
    assert_eq!(got[0].snippet, "No description");
    assert_eq!(got[4].title, "R3");
}
