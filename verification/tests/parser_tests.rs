use script_parser::ast::{Script, ScriptElement};
use script_parser::lexer::{Lexer, Token};
use script_parser::parser::Parser;

fn parse_text(input: &str) -> Script {
    let mut lexer = Lexer::new(input.to_string());
    let tokens = lexer.tokenize();
    let mut parser = Parser::new(tokens);
    parser.parse().unwrap()
}

#[test]
fn full_document_scenario() {
    let input = "# Title\n## Characters\nJOHN: John Smith\n## Script\n[Kitchen]\nJOHN: Hello there.\n(John waves)\nThis is narration.\n";
    let script = parse_text(input);
    assert_eq!(script.title_section, "Title Section");
    assert_eq!(script.characters.len(), 1);
    assert_eq!(script.characters.get("JOHN"), Some(&"John Smith".to_string()));
    assert_eq!(script.scenes.len(), 1);
    let scene = &script.scenes[0];
    assert_eq!(scene.location, Some("Kitchen".to_string()));
    assert_eq!(
        scene.elements,
        vec![
            ScriptElement::Dialogue {
                speaker: "JOHN".to_string(),
                text: "Hello there.".to_string(),
                actions: Vec::new(),
            },
            ScriptElement::Action("John waves".to_string()),
            ScriptElement::Narration("This is narration.".to_string()),
        ]
    );
}

#[test]
fn script_without_location_has_one_scene_without_location() {
    let script = parse_text("## Script\nJOHN: hi\nNarration here.\n(waving)");
    assert_eq!(script.scenes.len(), 1);
    assert_eq!(script.scenes[0].location, None);
    assert_eq!(script.scenes[0].elements.len(), 3);
}

#[test]
fn empty_input_gives_empty_document() {
    let mut lexer = Lexer::new(String::new());
    let tokens = lexer.tokenize();
    assert_eq!(tokens, vec![Token::EOF]);
    let mut parser = Parser::new(tokens);
    let script = parser.parse().unwrap();
    assert_eq!(script.title_section, "");
    assert_eq!(script.characters.len(), 0);
    assert!(script.scenes.is_empty());
}

#[test]
fn consecutive_locations_keep_only_the_second() {
    let script = parse_text("## Script\n[First]\n[Second]\nJOHN: hi");
    assert_eq!(script.scenes.len(), 1);
    assert_eq!(script.scenes[0].location, Some("Second".to_string()));
    assert_eq!(script.scenes[0].elements.len(), 1);
}

#[test]
fn empty_trailing_scene_is_discarded() {
    let script = parse_text("## Script\n[First]\nJOHN: hi\n[Second]");
    assert_eq!(script.scenes.len(), 1);
    assert_eq!(script.scenes[0].location, Some("First".to_string()));
}

#[test]
fn scene_boundaries_split_content() {
    let script = parse_text("## Script\nlead-in\n[A]\none\ntwo\n[B]\nthree");
    assert_eq!(script.scenes.len(), 3);
    assert_eq!(script.scenes[0].location, None);
    assert_eq!(script.scenes[0].elements.len(), 1);
    assert_eq!(script.scenes[1].location, Some("A".to_string()));
    assert_eq!(script.scenes[1].elements.len(), 2);
    assert_eq!(script.scenes[2].location, Some("B".to_string()));
    assert_eq!(script.scenes[2].elements.len(), 1);
}

#[test]
fn duplicate_character_definition_last_wins() {
    let script = parse_text("## Characters\nJOHN: First Name\nJOHN: Second Name\nMARY: Mary");
    assert_eq!(script.characters.len(), 2);
    assert_eq!(script.characters.get("JOHN"), Some(&"Second Name".to_string()));
    assert_eq!(script.characters.get("MARY"), Some(&"Mary".to_string()));
}

#[test]
fn title_text_is_replaced_by_fixed_label() {
    let script = parse_text("# My Wonderful Play");
    assert_eq!(script.title_section, "Title Section");
}

#[test]
fn double_hash_title_header_also_sets_the_label() {
    let script = parse_text("## Title\nignored words\n## Script\nhello");
    assert_eq!(script.title_section, "Title Section");
    assert_eq!(script.scenes.len(), 1);
}

#[test]
fn document_without_headers_is_empty() {
    let script = parse_text("JOHN: hi\n[Kitchen]\nwords");
    assert_eq!(script.title_section, "");
    assert_eq!(script.characters.len(), 0);
    assert!(script.scenes.is_empty());
}

#[test]
fn unknown_sections_are_skipped() {
    let script = parse_text("## Notes\nanything\n## Characters\nJOHN: John\n## Script\nJOHN: hi");
    assert_eq!(script.characters.len(), 1);
    assert_eq!(script.scenes.len(), 1);
}

#[test]
fn later_section_of_same_kind_replaces_earlier() {
    let script = parse_text("## Script\nfirst part\n## Script\nsecond part");
    assert_eq!(script.scenes.len(), 1);
    assert_eq!(
        script.scenes[0].elements,
        vec![ScriptElement::Narration("second part".to_string())]
    );
}

#[test]
fn characters_section_stops_at_next_header() {
    let script = parse_text("## Characters\nJOHN: John\n## Script\nMARY: hi");
    assert_eq!(script.characters.len(), 1);
    assert!(script.characters.get("MARY").is_none());
    assert_eq!(script.scenes.len(), 1);
}

#[test]
fn dialogue_actions_start_empty() {
    let script = parse_text("## Script\nJOHN: hi\n(waves)");
    match &script.scenes[0].elements[0] {
        ScriptElement::Dialogue { actions, .. } => assert!(actions.is_empty()),
        other => panic!("expected dialogue, got {:?}", other),
    }
}

#[test]
fn parser_cursor_helpers() {
    let mut parser = Parser::new(vec![
        Token::NarrationLine("x".to_string()),
        Token::EOF,
    ]);
    assert!(!parser.is_at_end());
    assert_eq!(parser.current_token(), &Token::NarrationLine("x".to_string()));
    parser.advance();
    assert!(parser.is_at_end());
    assert_eq!(parser.current_token(), &Token::EOF);
    parser.advance();
    assert!(parser.is_at_end());
}

#[test]
fn cursor_past_the_end_reads_the_sentinel() {
    let mut parser = Parser::new(Vec::new());
    assert!(parser.is_at_end());
    assert_eq!(parser.current_token(), &Token::EOF);
    assert_eq!(parser.parse().unwrap(), Script::new());
}

#[test]
fn tokens_after_sentinel_are_ignored() {
    let mut parser = Parser::new(vec![
        Token::SectionHeader("script".to_string()),
        Token::EOF,
        Token::NarrationLine("ghost line".to_string()),
    ]);
    let script = parser.parse().unwrap();
    assert!(script.scenes.is_empty());
}

#[test]
fn fresh_script_and_scene_are_empty() {
    let script = Script::new();
    assert_eq!(script.title_section, "");
    assert_eq!(script.characters.len(), 0);
    assert!(script.scenes.is_empty());
    let scene = script_parser::ast::Scene::new(Some("Barn".to_string()));
    assert_eq!(scene.location, Some("Barn".to_string()));
    assert!(scene.elements.is_empty());
}
