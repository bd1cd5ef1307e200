use filecrab::localization::{render, Catalog, Localizer, LocalizerState};

fn sample_state() -> LocalizerState {
    let mut localizer = Localizer::default();
    let en = "create-directory-success = Directory '{ $directory }' created successfully.\n\
              create-directory-already-exists = Directory '{ $directory }' already exists.\n\
              create-directory-error = Could not create directory '{ $directory }'.\n\
              create-file-success = File '{ $file }' created successfully.\n\
              create-file-already-exists = File '{ $file }' already exists.\n\
              create-file-error = Could not create file '{ $file }'.\n\
              greeting = Hello!";
    let cs = "create-directory-success = Adresar '{ $directory }' byl vytvoren.\n\
              greeting = Ahoj!";
    localizer.add_bundle("en".to_string(), &vec![en.to_string()]);
    localizer.add_bundle("cs".to_string(), &vec![cs.to_string()]);
    LocalizerState { locales: localizer, fallback_language: "en".to_string() }
}

#[test]
fn render_substitutes_named_placeholder() {
    let args = vec![("directory".to_string(), "photos".to_string())];
    let out = render("Directory '{ $directory }' created successfully.", &args);
    assert_eq!(out, "Directory 'photos' created successfully.");
}

#[test]
fn render_unresolved_placeholder_passes_through() {
    let args: Vec<(String, String)> = Vec::new();
    let out = render("Missing { $nothing } here", &args);
    assert_eq!(out, "Missing { $nothing } here");
}

#[test]
fn render_malformed_placeholder_passes_through() {
    let args = vec![("x".to_string(), "1".to_string())];
    assert_eq!(render("a { b } c", &args), "a { b } c");
    assert_eq!(render("open { only", &args), "open { only");
}

#[test]
fn render_multiple_placeholders() {
    let args = vec![
        ("a".to_string(), "1".to_string()),
        ("b".to_string(), "2".to_string()),
    ];
    assert_eq!(render("{ $a }+{ $b }={ $a }{ $b }", &args), "1+2=12");
}

#[test]
fn catalog_parses_lines_comments_and_overrides() {
    let mut cat = Catalog::new();
    cat.add_source("alpha = first\n# beta = hidden\nplain line\ngamma=third");
    assert_eq!(cat.get(&"alpha".to_string()), Some("first".to_string()));
    assert_eq!(cat.get(&"# beta".to_string()), None);
    assert_eq!(cat.get(&"beta".to_string()), None);
    assert_eq!(cat.get(&"gamma".to_string()), Some("third".to_string()));
    cat.add_source("alpha = replaced");
    assert_eq!(cat.get(&"alpha".to_string()), Some("replaced".to_string()));
}

#[test]
fn later_sources_override_earlier_ones() {
    let mut localizer = Localizer::default();
    localizer.add_bundle(
        "en".to_string(),
        &vec!["k = one".to_string(), "k = two".to_string()],
    );
    let state = LocalizerState { locales: localizer, fallback_language: "en".to_string() };
    assert_eq!(state.get_message("en", "k", &Vec::new()), "two");
}

#[test]
fn exact_language_match_selects_its_catalog() {
    let state = sample_state();
    assert_eq!(state.get_message("cs", "greeting", &Vec::new()), "Ahoj!");
    assert_eq!(state.get_message("en", "greeting", &Vec::new()), "Hello!");
}

#[test]
fn requested_tag_is_canonicalized_before_lookup() {
    let state = sample_state();
    // "CS" parses to the canonical tag "cs", so the Czech catalog answers.
    assert_eq!(state.get_message("CS", "greeting", &Vec::new()), "Ahoj!");
}

#[test]
fn unparsable_tag_falls_back_to_default_catalog() {
    let state = sample_state();
    assert_eq!(state.get_message("not a tag!!", "greeting", &Vec::new()), "Hello!");
}

#[test]
fn unknown_tag_falls_back_to_default_catalog() {
    let state = sample_state();
    assert_eq!(state.get_message("de", "greeting", &Vec::new()), "Hello!");
}

#[test]
fn missing_key_falls_back_to_default_catalog_then_key() {
    let state = sample_state();
    // The Czech catalog lacks the key; the default (English) one answers.
    let args = vec![("file".to_string(), "notes.txt".to_string())];
    assert_eq!(
        state.get_message("cs", "create-file-success", &args),
        "File 'notes.txt' created successfully."
    );
    // No catalog holds the key: the literal key string answers.
    assert_eq!(state.get_message("cs", "no-such-key", &Vec::new()), "no-such-key");
}

#[test]
fn render_handles_edge_templates() {
    let args = vec![("a".to_string(), "x".to_string())];
    assert_eq!(render("", &args), "");
    assert_eq!(render("{", &args), "{");
    assert_eq!(render("{ $a }", &args), "x");
    assert_eq!(render("tail {", &args), "tail {");
    assert_eq!(render("{}", &args), "{}");
}

#[test]
fn catalog_accepts_empty_values_and_padding() {
    let mut cat = Catalog::new();
    cat.add_source("  spaced   =   padded value  \nempty =\n = skipped");
    assert_eq!(cat.get(&"spaced".to_string()), Some("padded value".to_string()));
    assert_eq!(cat.get(&"empty".to_string()), Some("".to_string()));
    assert_eq!(cat.get(&"".to_string()), None);
}
