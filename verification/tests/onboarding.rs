use astrid_capsule::manifest::EnvDef;
use astrid_capsule::onboarding::{build_onboarding_field, OnboardingFieldType};

#[test]
fn build_onboarding_field_text() {
    let def = EnvDef {
        key: String::new(),
        env_type: "string".into(),
        request: Some("Enter owner address".into()),
        description: Some("The wallet address".into()),
        default: None,
        enum_values: vec![],
        placeholder: None,
    };
    let field = build_onboarding_field("owner", &def);
    assert_eq!(field.key, "owner");
    assert_eq!(field.prompt, "Enter owner address");
    assert_eq!(field.description.as_deref(), Some("The wallet address"));
    assert_eq!(
        field.field_type,
        OnboardingFieldType::Text
    );
    assert!(field.default.is_none());
}

#[test]
fn build_onboarding_field_secret() {
    let def = EnvDef {
        key: String::new(),
        env_type: "secret".into(),
        request: None,
        description: None,
        default: None,
        enum_values: vec!["a".into()], // enum_values ignored for secrets
        placeholder: None,
    };
    let field = build_onboarding_field("apiKey", &def);
    assert_eq!(
        field.field_type,
        OnboardingFieldType::Secret
    );
}

#[test]
fn build_onboarding_field_enum_with_default() {
    let def = EnvDef {
        key: String::new(),
        env_type: "string".into(),
        request: Some("Select network".into()),
        description: None,
        default: Some("testnet".into()),
        enum_values: vec!["testnet".into(), "mainnet".into()],
        placeholder: None,
    };
    let field = build_onboarding_field("network", &def);
    assert_eq!(
        field.field_type,
        OnboardingFieldType::Enum(vec!["testnet".into(), "mainnet".into()])
    );
    assert_eq!(field.default.as_deref(), Some("testnet"));
}

#[test]
fn build_onboarding_field_fallback_prompt() {
    let def = EnvDef {
        key: String::new(),
        env_type: "string".into(),
        request: None,
        description: None,
        default: None,
        enum_values: vec![],
        placeholder: None,
    };
    let field = build_onboarding_field("someKey", &def);
    assert_eq!(field.prompt, "Please enter value for someKey");
}

#[test]
fn build_onboarding_field_single_enum_degrades_to_text_with_autofill() {
    let def = EnvDef {
        key: String::new(),
        env_type: "string".into(),
        request: None,
        description: None,
        default: None,
        enum_values: vec!["only".into()],
        placeholder: None,
    };
    let field = build_onboarding_field("single", &def);
    assert_eq!(
        field.field_type,
        OnboardingFieldType::Text,
        "Single-choice enum should degrade to text"
    );
    assert_eq!(
        field.default.as_deref(),
        Some("only"),
        "Single-choice enum should auto-fill the sole valid value"
    );
}

#[test]
fn build_onboarding_field_array() {
    let def = EnvDef {
        key: String::new(),
        env_type: "array".into(),
        request: Some("Enter relay URLs".into()),
        description: Some("Nostr relay endpoints".into()),
        default: None,
        enum_values: vec![],
        placeholder: None,
    };
    let field = build_onboarding_field("relays", &def);
    assert_eq!(
        field.field_type,
        OnboardingFieldType::Array
    );
    assert_eq!(field.prompt, "Enter relay URLs");
}

#[test]
fn build_onboarding_field_empty_enum_degrades_to_text() {
    let def = EnvDef {
        key: String::new(),
        env_type: "string".into(),
        request: None,
        description: None,
        default: None,
        enum_values: vec![],
        placeholder: None,
    };
    let field = build_onboarding_field("empty", &def);
    assert_eq!(
        field.field_type,
        OnboardingFieldType::Text,
        "Empty enum should degrade to text"
    );
}

#[test]
fn declared_default_wins_over_the_only_value() {
    let def = EnvDef {
        key: "k".into(),
        env_type: "string".into(),
        request: None,
        description: None,
        default: Some("d".into()),
        enum_values: vec!["only".into()],
        placeholder: Some("p".into()),
    };
    let field = build_onboarding_field("k", &def);
    assert_eq!(field.default.as_deref(), Some("d"));
    assert_eq!(field.placeholder.as_deref(), Some("p"));
}
