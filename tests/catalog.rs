use unveilox::catalog::{read_poem, writing_names, LookupError, Writing};

const INVICTUS: &str = "Out of the night that covers me,\nBlack as the pit from pole to pole,\n";

fn writing(stem: &str, extension: &str, body: &str) -> Writing {
    Writing {
        stem: stem.to_string(),
        extension: extension.to_string(),
        body: body.to_string(),
    }
}

fn table() -> Vec<Writing> {
    vec![
        writing("if", "txt", "If you can keep your head"),
        writing("invictus", "txt", INVICTUS),
    ]
}

#[test]
fn poem_lookup_is_case_insensitive() {
    let poems = table();
    let lower = read_poem(&poems, "invictus").expect("poem should load");
    let upper = read_poem(&poems, "INVICtus").expect("poem should load");
    assert_eq!(lower, upper);
}

#[test]
fn empty_poem_name_is_rejected() {
    let poems = table();
    let err = read_poem(&poems, "   ").expect_err("empty name must fail");
    assert!(err.message().contains("must not be empty"));
}

#[test]
fn lookup_finds_body_under_every_case() {
    let poems = table();
    assert_eq!(read_poem(&poems, "invictus").unwrap(), INVICTUS);
    assert_eq!(read_poem(&poems, "INVICTUS").unwrap(), INVICTUS);
    assert_eq!(read_poem(&poems, "Invictus").unwrap(), INVICTUS);
}

#[test]
fn lookup_trims_unicode_white_space() {
    let poems = table();
    assert_eq!(read_poem(&poems, "\u{3000} invictus\t\n").unwrap(), INVICTUS);
}

#[test]
fn whitespace_only_names_fail_as_empty() {
    let poems = table();
    for name in ["", " ", "\t\n", "\u{a0}\u{2003}"] {
        assert!(matches!(read_poem(&poems, name), Err(LookupError::Empty)));
    }
}

#[test]
fn unknown_name_is_reported_trimmed() {
    let poems = table();
    match read_poem(&poems, "  ozymandias ") {
        Err(LookupError::NotFound(name)) => assert_eq!(name, "ozymandias"),
        _ => panic!("expected not found"),
    }
    let err = read_poem(&poems, "ozymandias").unwrap_err();
    assert_eq!(err.message(), "Writing not found: ozymandias");
}

#[test]
fn exact_text_file_is_preferred() {
    let poems = vec![
        writing("Dream", "txt", "upper"),
        writing("dream", "md", "markdown"),
        writing("dream", "txt", "lower"),
    ];
    assert_eq!(read_poem(&poems, "dream").unwrap(), "lower");
    assert_eq!(read_poem(&poems, "Dream").unwrap(), "upper");
    assert_eq!(read_poem(&poems, "DREAM").unwrap(), "upper");
}

#[test]
fn stem_match_without_text_extension() {
    let poems = vec![writing("Notes", "md", "body")];
    assert_eq!(read_poem(&poems, "notes").unwrap(), "body");
}

#[test]
fn non_ascii_case_is_not_folded() {
    let poems = vec![writing("école", "txt", "body")];
    assert!(read_poem(&poems, "ÉCOLE").is_err());
    assert_eq!(read_poem(&poems, "éCOLE").unwrap(), "body");
}

#[test]
fn names_are_listed_in_string_order() {
    let poems = vec![
        writing("the_raven", "txt", ""),
        writing("Invictus", "txt", ""),
        writing("if", "md", ""),
        writing("ifs", "txt", ""),
        writing("école", "txt", ""),
        writing("if", "txt", ""),
    ];
    assert_eq!(
        writing_names(&poems),
        vec!["Invictus", "if", "if", "ifs", "the_raven", "école"]
    );
    assert!(writing_names(&Vec::new()).is_empty());
}
