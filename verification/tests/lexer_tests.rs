use script_parser::lexer::{Lexer, Token};

fn tokens_of(input: &str) -> Vec<Token> {
    let mut lexer = Lexer::new(input.to_string());
    lexer.tokenize()
}

#[test]
fn empty_input_yields_only_sentinel() {
    let tokens = tokens_of("");
    assert_eq!(tokens, vec![Token::EOF]);
}

#[test]
fn sentinel_always_present_on_arbitrary_input() {
    for input in ["", "\n\n\n", "no section here", "## Weird\nstuff", "# T\n## Script\nhello"] {
        let tokens = tokens_of(input);
        assert!(tokens.len() >= 1);
        assert_eq!(tokens.last().unwrap(), &Token::EOF);
    }
}

#[test]
fn blank_lines_never_produce_tokens() {
    let input = "\n  \n# Title\n\n## Characters\n\n   \nJOHN: John Smith\n\n## Script\n\n\t\nHello.\n\n";
    let tokens = tokens_of(input);
    assert_eq!(
        tokens,
        vec![
            Token::SectionHeader("title".to_string()),
            Token::SectionHeader("Characters".to_string()),
            Token::CharacterDef { code: "JOHN".to_string(), name: "John Smith".to_string() },
            Token::SectionHeader("Script".to_string()),
            Token::NarrationLine("Hello.".to_string()),
            Token::EOF,
        ]
    );
}

#[test]
fn code_shape_is_disambiguated_by_section() {
    let in_characters = tokens_of("## Characters\nJOHN: hi");
    assert_eq!(
        in_characters[1],
        Token::CharacterDef { code: "JOHN".to_string(), name: "hi".to_string() }
    );
    let in_script = tokens_of("## Script\nJOHN: hi");
    assert_eq!(
        in_script[1],
        Token::DialogueLine { speaker: "JOHN".to_string(), text: "hi".to_string() }
    );
}

#[test]
fn lowercase_code_is_narration_not_dialogue() {
    let tokens = tokens_of("## Script\njane: hi");
    assert_eq!(tokens[1], Token::NarrationLine("jane: hi".to_string()));
}

#[test]
fn mixed_case_code_is_narration() {
    let tokens = tokens_of("## Script\nJohn: hi");
    assert_eq!(tokens[1], Token::NarrationLine("John: hi".to_string()));
}

#[test]
fn script_line_shapes() {
    let tokens = tokens_of("## Script\n[Kitchen]\n(John waves)\nJOHN: Hello there.\nThis is narration.");
    assert_eq!(
        tokens,
        vec![
            Token::SectionHeader("Script".to_string()),
            Token::LocationHeader("Kitchen".to_string()),
            Token::ActionText("John waves".to_string()),
            Token::DialogueLine { speaker: "JOHN".to_string(), text: "Hello there.".to_string() },
            Token::NarrationLine("This is narration.".to_string()),
            Token::EOF,
        ]
    );
}

#[test]
fn section_names_keep_original_case_in_tokens() {
    let tokens = tokens_of("## CHARACTERS\nJOHN: John");
    assert_eq!(tokens[0], Token::SectionHeader("CHARACTERS".to_string()));
    assert_eq!(
        tokens[1],
        Token::CharacterDef { code: "JOHN".to_string(), name: "John".to_string() }
    );
}

#[test]
fn section_dispatch_is_case_insensitive() {
    let tokens = tokens_of("## sCrIpT\nhello");
    assert_eq!(tokens[1], Token::NarrationLine("hello".to_string()));
}

#[test]
fn unknown_section_content_is_dropped() {
    let tokens = tokens_of("## Notes\nsome note\nANOTHER: line\n[bracketed]");
    assert_eq!(tokens, vec![Token::SectionHeader("Notes".to_string()), Token::EOF]);
}

#[test]
fn content_before_any_section_is_dropped() {
    let tokens = tokens_of("JOHN: hi\n[Kitchen]\nwords");
    assert_eq!(tokens, vec![Token::EOF]);
}

#[test]
fn title_header_emits_fixed_section_name() {
    let tokens = tokens_of("# The Actual Title");
    assert_eq!(tokens, vec![Token::SectionHeader("title".to_string()), Token::EOF]);
}

#[test]
fn title_section_content_is_dropped() {
    let tokens = tokens_of("# Title\nsome descriptive text");
    assert_eq!(tokens, vec![Token::SectionHeader("title".to_string()), Token::EOF]);
}

#[test]
fn header_lines_are_never_content() {
    // A header inside the script section is a header, not narration.
    let tokens = tokens_of("## Script\nwords\n## Characters\nJOHN: John");
    assert_eq!(
        tokens,
        vec![
            Token::SectionHeader("Script".to_string()),
            Token::NarrationLine("words".to_string()),
            Token::SectionHeader("Characters".to_string()),
            Token::CharacterDef { code: "JOHN".to_string(), name: "John".to_string() },
            Token::EOF,
        ]
    );
}

#[test]
fn header_name_is_trimmed() {
    let tokens = tokens_of("##   Script  \nhello");
    assert_eq!(tokens[0], Token::SectionHeader("Script".to_string()));
    assert_eq!(tokens[1], Token::NarrationLine("hello".to_string()));
}

#[test]
fn lines_are_trimmed_before_classification() {
    let tokens = tokens_of("## Script\n   [Kitchen]   \n  JOHN:   padded text  ");
    assert_eq!(tokens[1], Token::LocationHeader("Kitchen".to_string()));
    assert_eq!(
        tokens[2],
        Token::DialogueLine { speaker: "JOHN".to_string(), text: "padded text".to_string() }
    );
}

#[test]
fn windows_line_endings_are_handled() {
    let tokens = tokens_of("## Script\r\n[Kitchen]\r\nJOHN: hi\r\n");
    assert_eq!(
        tokens,
        vec![
            Token::SectionHeader("Script".to_string()),
            Token::LocationHeader("Kitchen".to_string()),
            Token::DialogueLine { speaker: "JOHN".to_string(), text: "hi".to_string() },
            Token::EOF,
        ]
    );
}

#[test]
fn colon_without_text_is_not_a_code_line() {
    // "AB:" has no text after the colon: dropped in the characters section,
    // narration in the script section.
    let in_characters = tokens_of("## Characters\nAB:");
    assert_eq!(
        in_characters,
        vec![Token::SectionHeader("Characters".to_string()), Token::EOF]
    );
    let in_script = tokens_of("## Script\nAB:");
    assert_eq!(in_script[1], Token::NarrationLine("AB:".to_string()));
}

#[test]
fn malformed_character_lines_are_dropped_silently() {
    let tokens = tokens_of("## Characters\nnot a definition\nJOHN: John Smith\n: no code");
    assert_eq!(
        tokens,
        vec![
            Token::SectionHeader("Characters".to_string()),
            Token::CharacterDef { code: "JOHN".to_string(), name: "John Smith".to_string() },
            Token::EOF,
        ]
    );
}

#[test]
fn brackets_win_over_code_shape() {
    // The location check runs before the dialogue check.
    let tokens = tokens_of("## Script\n[KITCHEN: the big one]");
    assert_eq!(tokens[1], Token::LocationHeader("KITCHEN: the big one".to_string()));
}

#[test]
fn lexer_input_is_unchanged_by_tokenize() {
    let mut lexer = Lexer::new("# T\n## Script\nhello".to_string());
    let first = lexer.tokenize();
    let second = lexer.tokenize();
    assert_eq!(first, second);
}
