use axis::capabilities::{alias_for_lowered, key_for_lowered};
use axis::capabilities::window_titles;
use axis::capabilities::{
    fts_query, key_for_name, launch_alias, launch_label, launch_message, press_message,
    session_title, typed_message, KeyName, LaunchAlias,
};
use axis::observer::FocusWatch;
use axis::profiles::{build_dispatch_prompt, build_profiles_prompt, ModelProfile, ModelScore};
use axis::session::{
    delete_session_logs, history_text, input_tokens, provider_trace, task_input,
    AxisToken, InteractionLog,
};

fn log(session: &str, words: &[&str], answer: &str) -> InteractionLog {
    InteractionLog {
        id: format!("{}-{}", session, answer),
        session_id: session.to_string(),
        timestamp: 0,
        user_tokens: words
            .iter()
            .map(|w| AxisToken { id: String::new(), text: w.to_string(), timestamp: 0, tags: vec![] })
            .collect(),
        ai_response: answer.to_string(),
        provider_used: String::new(),
    }
}

#[test]
fn input_is_split_into_word_tokens() {
    let toks = input_tokens("  open\tthe  notepad\n", 99);
    let words: Vec<&str> = toks.iter().map(|t| t.text.as_str()).collect();
    assert_eq!(words, vec!["open", "the", "notepad"]);
    assert_eq!(toks[2].id, "99-2");
    assert_eq!(toks[0].timestamp, 99);
    assert!(input_tokens("   ", 1).is_empty());
}

#[test]
fn history_keeps_last_five_of_the_session() {
    assert_eq!(history_text(&vec![], "s"), "None");
    let mut logs = vec![log("other", &["x"], "y")];
    for i in 0..7 {
        logs.push(log("s", &["q", &i.to_string()], &format!("a{}", i)));
    }
    let h = history_text(&logs, "s");
    assert!(h.starts_with("User: q 2\nAxis: a2\n---\nUser: q 3"));
    assert!(h.ends_with("User: q 6\nAxis: a6"));
    assert!(!h.contains("a1") && !h.contains("Axis: y"));
}

#[test]
fn deleting_a_session_keeps_the_others() {
    let mut logs = vec![log("a", &[], "1"), log("b", &[], "2"), log("a", &[], "3"), log("c", &[], "4")];
    delete_session_logs(&mut logs, "a");
    let left: Vec<&str> = logs.iter().map(|l| l.ai_response.as_str()).collect();
    assert_eq!(left, vec!["2", "4"]);
}

#[test]
fn prompt_pieces() {
    assert_eq!(task_input("None", "", "hi"), "Context:\nNone\n\n\nUser Request: hi");
    assert_eq!(provider_trace("gemini"), "Llama -> gemini");
    let p = build_dispatch_prompt("PROFILES", "HISTORY");
    assert!(p.starts_with("You are the Kernel of AxisOS (2026)."));
    assert!(p.contains("[Model Profiles]\n    PROFILES\n\n    [Context]\n    HISTORY\n"));
    assert!(p.ends_with("}"));
}

#[test]
fn profiles_rendering() {
    assert_eq!(build_profiles_prompt(&vec![]), "  (no model profiles loaded)");
    let p = ModelProfile {
        name: "gpt".to_string(),
        score: ModelScore {
            code: 95,
            reasoning: 90,
            math: 100,
            general_qa: 85,
            planning: 7,
            multimodal: 0,
            speed: 250,
            cost: 305,
        },
    };
    assert_eq!(
        build_profiles_prompt(&vec![p]),
        "- gpt:\n  code: 0.95\n  reasoning: 0.9\n  math: 1\n  general_qa: 0.85\n  planning: 0.07\n  multimodal: 0\n  speed: 2.5\n  cost: 3.05\n\n"
    );
}

#[test]
fn launch_aliases() {
    assert_eq!(launch_alias("  Calc "), Some(LaunchAlias::Calculator));
    assert_eq!(launch_alias("メモ帳"), Some(LaunchAlias::Notepad));
    assert_eq!(launch_alias("TERMINAL"), Some(LaunchAlias::Terminal));
    assert_eq!(launch_alias("spotify"), None);
    assert_eq!(launch_label(LaunchAlias::Explorer), "File Explorer");
    assert_eq!(launch_message("Calculator", &Ok(())), "Success: Launched Calculator.");
    assert_eq!(launch_message("Calculator", &Err("denied".to_string())), "Error launching Calculator: denied");
}

#[test]
fn key_names() {
    assert_eq!(key_for_name("Enter"), Some(KeyName::Return));
    assert_eq!(key_for_name("ESC"), Some(KeyName::Escape));
    assert_eq!(key_for_name("super"), Some(KeyName::Meta));
    assert_eq!(key_for_name("f13"), None);
    assert_eq!(press_message("f13", false, &Ok(())), "Error: Unknown key.");
    assert_eq!(press_message("tab", true, &Ok(())), "Pressed: [tab]");
}

#[test]
fn typing_messages() {
    assert_eq!(typed_message("hi", &None, &Ok(())), "Typed: 'hi'");
    assert_eq!(typed_message("hi", &Some("Notepad".to_string()), &Ok(())), "Focused 'Notepad' and Typed: 'hi'");
    assert_eq!(typed_message("hi", &None, &Err("busy".to_string())), "Error typing text: busy");
}

#[test]
fn full_text_query_and_title() {
    assert_eq!(fts_query(" say \"hi\": now-ish* "), "\"say  hi   now ish\"");
    assert_eq!(session_title("0123456789"), "session 01234567");
    assert_eq!(session_title("abc"), "session abc");
}

#[test]
fn observer_notices_errors_and_long_stays() {
    let mut w = FocusWatch::new();
    assert_eq!(w.observe(""), None);
    assert_eq!(w.observe("Build Error - Terminal"), Some("[Error Detected] Looks like an error occurred in 'Build Error - Terminal'. Need help?".to_string()));
    assert_eq!(w.observe("YouTube - Cats"), None);
    let mut notes = vec![];
    for _ in 0..13 {
        notes.push(w.observe("YouTube - Cats"));
    }
    assert_eq!(notes.iter().filter(|n| n.is_some()).count(), 1);
    assert!(notes[11].as_deref().unwrap().starts_with("[Suggestion]"));
}

#[test]
fn lowered_lookups() {
    assert_eq!(alias_for_lowered("taskmgr"), Some(LaunchAlias::TaskManager));
    assert_eq!(alias_for_lowered("Calc"), None);
    assert_eq!(key_for_lowered("esc"), Some(KeyName::Escape));
    assert_eq!(key_for_lowered("Esc"), None);
}

#[test]
fn window_listing_lines() {
    assert_eq!(window_titles("Notepad\r\n\r\n  Calculator  \nTerminal"), vec!["Notepad", "Calculator", "Terminal"]);
    assert!(window_titles("").is_empty());
}
