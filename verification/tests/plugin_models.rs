use verbium::plugins::agent::models::{AgentConfig, ChatSession, MessageRole};
use verbium::plugins::agent::plugin::AgentPlugin;
use verbium::plugins::browser::widgets::NavButton;
use verbium::plugins::browser::BrowserPlugin;
use verbium::plugins::code_editor::language_for_extension;
use verbium::plugins::core_tabs::{CorePlugin, EditorTab, EmptyTab};
use verbium::plugins::file_manager::FileExplorerTab;
use verbium::plugins::manager::default_true;
use verbium::plugins::test_plugin::TestTab;

#[test]
fn agent_config_default_is_empty() {
    let config = AgentConfig::default();
    assert!(config.script_directory.is_none());
    assert!(config.default_chat_dir.is_none());
}

#[test]
fn chat_session_new_records_mode_and_model() {
    let session = ChatSession::new("Plan".to_string(), "Gemini Pro".to_string());
    assert!(session.path.is_none());
    assert!(session.created_at.is_some());
    assert!(session.messages.is_empty());
    assert_eq!(session.context_mode, "Plan");
    assert_eq!(session.model_name, "Gemini Pro");
}

#[test]
fn chat_session_push_exchange_appends_in_order() {
    let mut session = ChatSession::new("Chat".to_string(), "GPT-4".to_string());
    session.push_exchange("hi".to_string(), "hello".to_string());
    session.push_exchange("more".to_string(), "sure".to_string());
    assert_eq!(session.messages.len(), 4);
    assert_eq!(session.messages[0].role, MessageRole::User);
    assert_eq!(session.messages[0].content, "hi");
    assert_eq!(session.messages[1].role, MessageRole::Agent);
    assert_eq!(session.messages[1].content, "hello");
    assert_eq!(session.messages[2].content, "more");
    assert_eq!(session.messages[3].content, "sure");
}

#[test]
fn agent_plugin_starts_with_creator_closed() {
    let mut plugin = AgentPlugin::new(AgentConfig::default());
    assert!(!plugin.show_session_creator);
    assert_eq!(plugin.new_session_name, "New Chat");
    plugin.open_session_creator();
    assert!(plugin.show_session_creator);
    plugin.close_session_creator();
    assert!(!plugin.show_session_creator);
}

#[test]
fn agent_create_variants() {
    let simple = verbium::plugins::agent::create();
    assert!(simple.script_directory.is_none());
    let sessions = verbium::plugins::agent::plugin::create();
    assert!(sessions.config.default_chat_dir.is_none());
}

#[test]
fn browser_plugin_queues_urls_in_order() {
    let mut plugin = BrowserPlugin::new();
    assert!(plugin.pending_urls.is_empty());
    plugin.request_tab("https://example.org".to_string());
    plugin.request_tab("https://example.com".to_string());
    let drained = plugin.take_pending();
    assert_eq!(drained, vec!["https://example.org", "https://example.com"]);
    assert!(plugin.pending_urls.is_empty());
    let _ = verbium::plugins::browser::create();
}

#[test]
fn nav_button_keeps_its_glyph() {
    let button = NavButton::new("back");
    assert_eq!(button.text, "back");
}

#[test]
fn language_mapping_matches_known_extensions() {
    assert_eq!(language_for_extension("rs"), "rs");
    assert_eq!(language_for_extension("py"), "py");
    assert_eq!(language_for_extension("ts"), "js");
    assert_eq!(language_for_extension("js"), "js");
    assert_eq!(language_for_extension("hpp"), "cpp");
    assert_eq!(language_for_extension("cxx"), "cpp");
    assert_eq!(language_for_extension("h"), "c");
    assert_eq!(language_for_extension("toml"), "toml");
    assert_eq!(language_for_extension("unknown"), "txt");
    assert_eq!(language_for_extension(""), "txt");
    let _ = verbium::plugins::code_editor::create();
}

#[test]
fn core_plugin_numbers_untitled_files() {
    let mut core = CorePlugin::default();
    assert_eq!(core.new_file_counter, 1);
    assert!(!core.show_about);
    assert_eq!(core.next_file_number(), 1);
    assert_eq!(core.next_file_number(), 2);
    assert_eq!(core.new_file_counter, 3);
    let tab = EditorTab { name: "Untitled-1".to_string(), content: String::new() };
    assert_eq!(tab.name, "Untitled-1");
    let _empty = EmptyTab;
}

#[test]
fn file_explorer_tracks_expanded_nodes() {
    let mut tab = FileExplorerTab::new();
    assert!(tab.root_path.is_none());
    let a = "/src".to_string();
    let b = "/src/plugins".to_string();
    assert!(!tab.is_expanded(&a));
    tab.expand(a.clone());
    tab.expand(b.clone());
    tab.expand(a.clone());
    assert!(tab.is_expanded(&a));
    assert!(tab.is_expanded(&b));
    assert_eq!(tab.expanded_nodes.len(), 2);
    tab.collapse(&a);
    assert!(!tab.is_expanded(&a));
    assert!(tab.is_expanded(&b));
    let _ = verbium::plugins::file_manager::create();
}

#[test]
fn launcher_defaults_to_build_and_run() {
    assert!(default_true());
    let _ = verbium::plugins::manager::create();
}

#[test]
fn remaining_plugins_construct() {
    let tab = TestTab::new("Hello from test plugin!".to_string());
    assert_eq!(tab.text, "Hello from test plugin!");
    let _ = verbium::plugins::test_plugin::create();
    let _ = verbium::plugins::terminal::create();
}
