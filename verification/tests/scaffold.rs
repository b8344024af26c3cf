use fipa_wasm_agents::scaffold::{template_world, to_pascal_case, validate_name, NameError, TemplateType};

#[test]
fn agent_names_are_lowercased_and_checked() {
    assert_eq!(validate_name("My-Agent_2").unwrap(), "my-agent_2");
    assert_eq!(validate_name(""), Err(NameError::Empty));
    assert_eq!(validate_name("2fast"), Err(NameError::NotLetterFirst));
    assert_eq!(validate_name("-x"), Err(NameError::NotLetterFirst));
    assert_eq!(validate_name("bad name"), Err(NameError::BadCharacter));
    assert_eq!(validate_name("café"), Err(NameError::BadCharacter));
    assert_eq!(NameError::Empty.message(), "Agent name cannot be empty");
    assert_eq!(NameError::NotLetterFirst.message(), "Agent name must start with a letter");
    assert_eq!(
        NameError::BadCharacter.message(),
        "Agent name can only contain letters, numbers, hyphens, and underscores"
    );
}

#[test]
fn type_names_join_capitalized_words() {
    assert_eq!(to_pascal_case("my-agent_x"), "MyAgentX");
    assert_eq!(to_pascal_case("counter"), "Counter");
    assert_eq!(to_pascal_case("--a--b"), "AB");
    assert_eq!(to_pascal_case(""), "");
    assert_eq!(to_pascal_case("ßx-y"), "SSxY");
}

#[test]
fn template_worlds() {
    assert_eq!(template_world(TemplateType::Full), "agent");
    assert_eq!(template_world(TemplateType::Minimal), "minimal-agent");
    assert_eq!(template_world(TemplateType::Stateless), "stateless-handler");
}
