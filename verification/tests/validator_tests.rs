use script_parser::ast::{CharacterMap, Scene, Script, ScriptElement};
use script_parser::lexer::Lexer;
use script_parser::parser::Parser;
use script_parser::validator::{ValidationError, Validator};

fn parse_text(input: &str) -> Script {
    let mut lexer = Lexer::new(input.to_string());
    let tokens = lexer.tokenize();
    let mut parser = Parser::new(tokens);
    parser.parse().unwrap()
}

#[test]
fn valid_document_passes_without_warnings() {
    let script = parse_text(
        "# Title\n## Characters\nJOHN: John Smith\n## Script\n[Kitchen]\nJOHN: Hello there.\n",
    );
    let mut validator = Validator::new();
    assert_eq!(validator.validate(&script), Ok(()));
    assert!(validator.warning_messages().is_empty());
}

#[test]
fn empty_document_reports_all_three_missing_sections() {
    let script = Script::new();
    let mut validator = Validator::new();
    let err = validator.validate(&script).unwrap_err();
    let expected = "Validation failed:\nERROR: Title section is missing\n  Suggestion: Add a title section with '# Title' header\nERROR: Character definitions are missing\n  Suggestion: Add character definitions in the '## Characters' section\nERROR: Script content is missing\n  Suggestion: Add script content in the '## Script' section";
    assert_eq!(err, expected);
}

#[test]
fn undefined_speaker_is_an_error() {
    let script = parse_text("# T\n## Characters\nJOHN: John\n## Script\nMARY: hi\nJOHN: ho\n");
    let mut validator = Validator::new();
    let err = validator.validate(&script).unwrap_err();
    assert!(err.contains("ERROR: Undefined character code 'MARY' used in dialogue"));
    assert!(err.contains("Add 'MARY: Character Name' to the character definitions"));
    assert!(!err.contains("'JOHN'"));
}

#[test]
fn narrator_speaker_needs_no_definition() {
    let script = parse_text("# T\n## Characters\nJOHN: John\n## Script\nJOHN: hi\nN: and so it went\n");
    let mut validator = Validator::new();
    assert_eq!(validator.validate(&script), Ok(()));
}

#[test]
fn defining_the_narrator_code_warns_twice() {
    let script = parse_text("# T\n## Characters\nN: Narrator\n## Script\nN: once upon a time\n");
    let mut validator = Validator::new();
    assert_eq!(validator.validate(&script), Ok(()));
    let warnings = validator.warning_messages();
    let expected = "WARNING: Character code 'N' is reserved for narrator\n  Suggestion: Consider using a different code for this character";
    assert_eq!(warnings, vec![expected.to_string(), expected.to_string()]);
}

#[test]
fn unused_character_warns() {
    let script = parse_text("# T\n## Characters\nJOHN: John\nMARY: Mary Jones\n## Script\nJOHN: hi\n");
    let mut validator = Validator::new();
    assert_eq!(validator.validate(&script), Ok(()));
    let warnings = validator.warning_messages();
    assert_eq!(
        warnings,
        vec![
            "WARNING: Character 'Mary Jones' (MARY) is defined but never used\n  Suggestion: Remove unused character or add dialogue for this character".to_string(),
        ]
    );
}

#[test]
fn empty_scene_warns_in_both_checks() {
    let mut script = parse_text("# T\n## Characters\nJOHN: John\n## Script\nJOHN: hi\n");
    script.scenes.push(Scene::new(Some("Empty Barn".to_string())));
    let mut validator = Validator::new();
    assert_eq!(validator.validate(&script), Ok(()));
    let warnings = validator.warning_messages();
    assert_eq!(
        warnings,
        vec![
            "WARNING: Scene 2 has no content\n  Suggestion: Add dialogue, narration, or action to the scene".to_string(),
            "WARNING: Scene 2 has no content\n  Suggestion: Add content to the scene or remove it".to_string(),
        ]
    );
}

#[test]
fn scene_numbers_in_warnings_are_one_indexed_decimals() {
    let mut script = parse_text("# T\n## Characters\nJOHN: John\n## Script\nJOHN: hi\n");
    for _ in 0..11 {
        script.scenes.push(Scene::new(None));
    }
    let mut validator = Validator::new();
    assert_eq!(validator.validate(&script), Ok(()));
    let warnings = validator.warning_messages();
    assert_eq!(warnings.len(), 22);
    assert!(warnings[0].starts_with("WARNING: Scene 2 has no content"));
    assert!(warnings[10].starts_with("WARNING: Scene 12 has no content"));
}

#[test]
fn blank_location_is_an_error() {
    let mut script = parse_text("# T\n## Characters\nJOHN: John\n## Script\nJOHN: hi\n");
    let mut scene = Scene::new(Some("   ".to_string()));
    scene.elements.push(ScriptElement::Narration("words".to_string()));
    script.scenes.push(scene);
    let mut validator = Validator::new();
    let err = validator.validate(&script).unwrap_err();
    assert!(err.contains("ERROR: Scene location cannot be empty"));
    assert!(err.contains("Provide a valid location name"));
}

#[test]
fn empty_texts_are_errors() {
    let mut script = Script::new();
    script.title_section = "Title Section".to_string();
    script.characters.insert("JOHN".to_string(), "John".to_string());
    let mut scene = Scene::new(None);
    scene.elements.push(ScriptElement::Dialogue {
        speaker: "JOHN".to_string(),
        text: "   ".to_string(),
        actions: vec!["".to_string()],
    });
    scene.elements.push(ScriptElement::Narration("  ".to_string()));
    scene.elements.push(ScriptElement::Action("\t".to_string()));
    script.scenes.push(scene);
    let mut validator = Validator::new();
    let err = validator.validate(&script).unwrap_err();
    assert!(err.contains("ERROR: Empty dialogue for character 'JOHN'"));
    assert!(err.contains("ERROR: Empty action description"));
    assert!(err.contains("ERROR: Empty narration text"));
    assert!(err.contains("ERROR: Empty action text"));
}

#[test]
fn invalid_and_empty_codes_are_errors() {
    let mut script = Script::new();
    script.title_section = "Title Section".to_string();
    script.characters.insert("Jo1".to_string(), "Jo".to_string());
    script.characters.insert("".to_string(), "Nameless".to_string());
    script.characters.insert("MARY".to_string(), " ".to_string());
    let mut scene = Scene::new(None);
    scene.elements.push(ScriptElement::Narration("words".to_string()));
    script.scenes.push(scene);
    let mut validator = Validator::new();
    let err = validator.validate(&script).unwrap_err();
    assert!(err.contains("ERROR: Invalid character code 'Jo1': must contain only uppercase letters"));
    assert!(err.contains("ERROR: Character code cannot be empty"));
    assert!(err.contains("ERROR: Character name for code 'MARY' cannot be empty"));
}

#[test]
fn validator_resets_between_runs() {
    let bad = Script::new();
    let good = parse_text("# T\n## Characters\nJOHN: John\n## Script\nJOHN: hi\n");
    let mut validator = Validator::new();
    assert!(validator.validate(&bad).is_err());
    assert_eq!(validator.validate(&good), Ok(()));
    assert!(validator.warning_messages().is_empty());
}

#[test]
fn validation_error_builders_set_fields() {
    let e = ValidationError::new("boom".to_string());
    assert_eq!(e.message, "boom");
    assert_eq!(e.line, None);
    assert_eq!(e.column, None);
    assert_eq!(e.suggestion, None);
    let e = e.with_location(3, 7).with_suggestion("try again".to_string());
    assert_eq!(e.line, Some(3));
    assert_eq!(e.column, Some(7));
    assert_eq!(e.suggestion, Some("try again".to_string()));
}

#[test]
fn character_map_basics() {
    let mut map = CharacterMap::new();
    assert!(map.is_empty());
    map.insert("JOHN".to_string(), "John".to_string());
    map.insert("MARY".to_string(), "Mary".to_string());
    map.insert("JOHN".to_string(), "Johnny".to_string());
    assert_eq!(map.len(), 2);
    assert!(map.contains_key("JOHN"));
    assert!(!map.contains_key("BOB"));
    assert_eq!(map.get("JOHN"), Some(&"Johnny".to_string()));
    assert_eq!(map.get("BOB"), None);
    let first = map.pair_at(0);
    assert_eq!(first.0, "JOHN");
    assert_eq!(first.1, "Johnny");
}
