use cardboard::format::FormattedTextInstruction;
use cardboard::format::Parser;

#[test]
fn it_finds_well_formed_elements() {
    let text = "Some text with <b>nested <i>tags</i></b> and even an :emoji: for good measure";
    let parser = Parser::new(text);
    let formatting_instructions = parser.parse();

    assert_eq!(
        formatting_instructions,
        vec![
            FormattedTextInstruction::AddText("Some text with ".to_string()),
            FormattedTextInstruction::PushStyle("b".to_string()),
            FormattedTextInstruction::AddText("nested ".to_string()),
            FormattedTextInstruction::PushStyle("i".to_string()),
            FormattedTextInstruction::AddText("tags".to_string()),
            FormattedTextInstruction::PopStyle("i".to_string()),
            FormattedTextInstruction::PopStyle("b".to_string()),
            FormattedTextInstruction::AddText(" and even an ".to_string()),
            FormattedTextInstruction::InsertPlaceholder("emoji".to_string()),
            FormattedTextInstruction::AddText(" for good measure".to_string()),
        ]
    )
}

#[test]
fn it_degrades_invalid_forms_to_text() {
    let text = r###"
            This should just be one big text instruction:
              - open tag <with spaces>
              - close tag </with spaces>
              - emoji :with spaces:
              - empty open tag <>,
              - empty close tag </>
              - empty emoji ::
        "###;
    let parser = Parser::new(text);
    let instructions = parser.parse();

    assert_eq!(instructions, vec![FormattedTextInstruction::AddText(text.to_string()),])
}

#[test]
fn parse_of_plain_text_is_one_run() {
    let instructions = cardboard::format::parse("plain words only");
    assert_eq!(
        instructions,
        vec![FormattedTextInstruction::AddText("plain words only".to_string())]
    );
}

#[test]
fn unterminated_tag_at_end_of_input_is_dropped() {
    // the parser never fails, but a token still open at end of input is not
    // flushed as text
    let instructions = cardboard::format::parse("abc<def");
    assert_eq!(instructions, vec![FormattedTextInstruction::AddText("abc".to_string())]);
}

#[test]
fn placeholder_allows_slash_and_dots() {
    let instructions = cardboard::format::parse(":icons/mana.blue:");
    assert_eq!(
        instructions,
        vec![FormattedTextInstruction::InsertPlaceholder("icons/mana.blue".to_string())]
    );
}
