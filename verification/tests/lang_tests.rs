use message_fluent_helper::ArgValue;
use message_fluent_helper::DirListing;
use message_fluent_helper::LanguageChoiceError;
use message_fluent_helper::LanguageTag;
use message_fluent_helper::ResolveError;
use message_fluent_helper::ResourceFile;
use message_fluent_helper::RuntimeRegistry;
use message_fluent_helper::SubdirListing;
use message_fluent_helper::build_language;
use message_fluent_helper::build_language_0;
use message_fluent_helper::build_language_1;
use message_fluent_helper::build_language_2;
use message_fluent_helper::build_language_fns;
use message_fluent_helper::concat_parameters_key;
use message_fluent_helper::init_lang;
use message_fluent_helper::init_lang_with_donnot_panic;
use message_fluent_helper::is_resource_file_name;
use message_fluent_helper::language_matches_score;
use message_fluent_helper::make_error_replacement;
use message_fluent_helper::negotiate;

fn tag(language: &str, script: Option<&str>, region: Option<&str>) -> LanguageTag {
    LanguageTag {
        language: language.to_string(),
        script: script.map(|s| s.to_string()),
        region: region.map(|r| r.to_string()),
        variants: Vec::new(),
    }
}

fn subdir(name: &str, files: Vec<ResourceFile>) -> SubdirListing {
    SubdirListing { name: name.to_string(), path: format!("/base/{}", name), files }
}

fn found_listing(subdirs: Vec<SubdirListing>) -> DirListing {
    DirListing { found: true, shown_path: "/base".to_string(), subdirs }
}

fn missing_listing() -> DirListing {
    DirListing { found: false, shown_path: "/nowhere".to_string(), subdirs: Vec::new() }
}

fn ftl(name: &str, contents: &str) -> ResourceFile {
    ResourceFile { name: name.to_string(), contents: contents.to_string() }
}

#[test]
fn it_works() {
    let mut reg = RuntimeRegistry::new();
    init_lang(&mut reg, None, &missing_listing()).unwrap();
    {
        let dest = format!("{}", build_language_0(&reg, "a").unwrap());
        assert_eq!(dest, "<NoSuchMessage - a>");
    }
    {
        let dest = format!("{}", build_language_0(&reg, "abc 啊").unwrap());
        assert_eq!(dest, "<NoSuchMessage - abc 啊>");
    }
    {
        let dest = format!(
            "{}",
            build_language_1(&reg, "abc 啊", "cde", ArgValue::Integer(3)).unwrap()
        );
        assert_eq!(dest, "<NoSuchMessage - [<abc 啊>,cde]>");
    }
}

#[test]
fn ranking_prefers_exact_match() {
    let desired = tag("en", None, Some("GB"));
    let listing = found_listing(vec![
        subdir("en", Vec::new()),
        subdir("en-GB", Vec::new()),
        subdir("fr", Vec::new()),
    ]);
    let ranked = negotiate(&desired, &"en-GB".to_string(), &listing, false).unwrap();
    assert_eq!(ranked.len(), 2);
    assert_eq!(ranked[0].lang_name, "en-GB");
    assert_eq!(ranked[0].score, 15);
    assert_eq!(ranked[1].lang_name, "en");
    assert!(ranked[1].score >= 1);
}

#[test]
fn language_only_match_is_kept() {
    let desired = tag("en", None, Some("GB"));
    let listing = found_listing(vec![subdir("en", Vec::new()), subdir("fr", Vec::new())]);
    let ranked = negotiate(&desired, &"en-GB".to_string(), &listing, false).unwrap();
    assert_eq!(ranked.len(), 1);
    assert_eq!(ranked[0].lang_name, "en");
}

#[test]
fn no_match_fails_or_degrades() {
    let desired = tag("zz", None, None);
    let listing = found_listing(vec![subdir("en", Vec::new()), subdir("fr", Vec::new())]);
    let err = negotiate(&desired, &"zz".to_string(), &listing, false).unwrap_err();
    match err {
        LanguageChoiceError::LanguageNegotiatedFailed(name, available) => {
            assert_eq!(name, "zz");
            assert_eq!(available, vec!["en".to_string(), "fr".to_string()]);
        }
        other => panic!("unexpected error: {:?}", variant_name(&other)),
    }
    let ranked = negotiate(&desired, &"zz".to_string(), &listing, true).unwrap();
    assert_eq!(ranked.len(), 0);
}

fn variant_name(e: &LanguageChoiceError) -> &'static str {
    match e {
        LanguageChoiceError::IoError(_) => "IoError",
        LanguageChoiceError::NoLanguageFilesAt(_) => "NoLanguageFilesAt",
        LanguageChoiceError::LanguageNegotiatedFailed(_, _) => "LanguageNegotiatedFailed",
        LanguageChoiceError::MalformedLanguageTag(_) => "MalformedLanguageTag",
        LanguageChoiceError::LocaleUnavailable => "LocaleUnavailable",
        LanguageChoiceError::ResourceParseFailed(_) => "ResourceParseFailed",
        LanguageChoiceError::ResourceAddFailed(_) => "ResourceAddFailed",
        LanguageChoiceError::NoUsableLanguage => "NoUsableLanguage",
        LanguageChoiceError::AlreadyInitialized => "AlreadyInitialized",
    }
}

#[test]
fn tie_break_orders_names_ascending() {
    let desired = tag("en", None, Some("GB"));
    let listing = found_listing(vec![subdir("en-US", Vec::new()), subdir("en-CA", Vec::new())]);
    let ranked = negotiate(&desired, &"en-GB".to_string(), &listing, false).unwrap();
    assert_eq!(ranked.len(), 2);
    assert_eq!(ranked[0].score, ranked[1].score);
    assert_eq!(ranked[0].lang_name, "en-CA");
    assert_eq!(ranked[1].lang_name, "en-US");
    let listing2 = found_listing(vec![subdir("en-US", Vec::new()), subdir("en-CA", Vec::new())]);
    let again = negotiate(&desired, &"en-GB".to_string(), &listing2, false).unwrap();
    assert_eq!(again[0].lang_name, "en-CA");
    assert_eq!(again[1].lang_name, "en-US");
}

#[test]
fn scores_follow_the_bit_scheme() {
    let en_gb = tag("en", None, Some("GB"));
    assert_eq!(language_matches_score(&en_gb, &en_gb), 15);
    assert_eq!(language_matches_score(&tag("en", None, None), &en_gb), 5);
    assert_eq!(language_matches_score(&tag("en", None, Some("US")), &en_gb), 5);
    assert_eq!(language_matches_score(&tag("fr", None, None), &en_gb), 0);
    assert_eq!(
        language_matches_score(&tag("en", Some("Latn"), Some("GB")), &en_gb),
        3
    );
}

#[test]
fn resolution_is_idempotent() {
    let mut reg = RuntimeRegistry::new();
    init_lang(&mut reg, Some("en".to_string()), &missing_listing()).unwrap();
    let a = build_language_0(&reg, "k").unwrap();
    let b = build_language_0(&reg, "k").unwrap();
    assert_eq!(a, b);
}

#[test]
fn formatted_output_is_idempotent() {
    let mut reg = RuntimeRegistry::new();
    let listing = found_listing(vec![subdir(
        "en",
        vec![ftl("main.ftl", "greet = Hello, { $name }.\n")],
    )]);
    init_lang(&mut reg, Some("en".to_string()), &listing).unwrap();
    let a = build_language_1(&reg, "greet", "name", ArgValue::Text("Ann".to_string())).unwrap();
    let b = build_language_1(&reg, "greet", "name", ArgValue::Text("Ann".to_string())).unwrap();
    assert_eq!(a, b);
    assert!(a.contains("Ann"));
}

#[test]
fn placeholder_literals() {
    let mut reg = RuntimeRegistry::new();
    init_lang(&mut reg, Some("en".to_string()), &missing_listing()).unwrap();
    assert_eq!(build_language_0(&reg, "a").unwrap(), "<NoSuchMessage - a>");
    assert_eq!(
        build_language(&reg, "k", Vec::new()).unwrap(),
        "<NoSuchMessage - [<k>]>"
    );
    assert_eq!(
        build_language_2(
            &reg,
            "k",
            "b",
            ArgValue::Integer(1),
            "a",
            ArgValue::Integer(2)
        )
        .unwrap(),
        "<NoSuchMessage - [<k>,a,b]>"
    );
}

#[test]
fn reinitialization_fails_and_keeps_state() {
    let mut reg = RuntimeRegistry::new();
    let listing = found_listing(vec![subdir("en", vec![ftl("m.ftl", "hello = world\n")])]);
    init_lang(&mut reg, Some("en".to_string()), &listing).unwrap();
    assert_eq!(build_language_0(&reg, "hello").unwrap(), "world");
    let second = init_lang(&mut reg, Some("fr".to_string()), &missing_listing());
    assert!(second.is_err());
    assert!(matches!(second.unwrap_err(), LanguageChoiceError::AlreadyInitialized));
    assert_eq!(build_language_0(&reg, "hello").unwrap(), "world");
}

#[test]
fn empty_resource_directory_loads_and_misses() {
    let mut reg = RuntimeRegistry::new();
    let listing = found_listing(vec![subdir("en", Vec::new())]);
    init_lang(&mut reg, Some("en".to_string()), &listing).unwrap();
    assert_eq!(build_language_0(&reg, "anything").unwrap(), "<NoSuchMessage - anything>");
    assert_eq!(
        build_language_1(&reg, "anything", "x", ArgValue::Integer(0)).unwrap(),
        "<NoSuchMessage - [<anything>,x]>"
    );
}

#[test]
fn message_without_value_degrades() {
    let mut reg = RuntimeRegistry::new();
    let listing = found_listing(vec![subdir(
        "en",
        vec![ftl("m.ftl", "attr-only =\n    .label = hi\nhello = world\n")],
    )]);
    init_lang(&mut reg, Some("en".to_string()), &listing).unwrap();
    assert_eq!(build_language_0(&reg, "attr-only").unwrap(), "<NoValueFound - attr-only>");
    assert_eq!(build_language_0(&reg, "hello").unwrap(), "world");
}

#[test]
fn abort_policy_returns_errors() {
    let mut reg = RuntimeRegistry::new();
    let listing = found_listing(vec![subdir("en", Vec::new())]);
    init_lang_with_donnot_panic(&mut reg, Some("en".to_string()), &listing, false).unwrap();
    let err = build_language_0(&reg, "missing").unwrap_err();
    assert!(matches!(err, ResolveError::NoSuchMessage(k) if k == "missing"));
}

#[test]
fn missing_base_directory_is_fatal_in_abort_mode() {
    let mut reg = RuntimeRegistry::new();
    let err =
        init_lang_with_donnot_panic(&mut reg, Some("en".to_string()), &missing_listing(), false)
            .unwrap_err();
    assert!(matches!(err, LanguageChoiceError::NoLanguageFilesAt(p) if p == "/nowhere"));
}

#[test]
fn malformed_desired_tag_is_fatal() {
    let mut reg = RuntimeRegistry::new();
    let listing = found_listing(vec![subdir("en", Vec::new())]);
    let err = init_lang(&mut reg, Some("!!not a tag!!".to_string()), &listing).unwrap_err();
    assert!(matches!(err, LanguageChoiceError::MalformedLanguageTag(t) if t == "!!not a tag!!"));
}

#[test]
fn malformed_resource_file_is_fatal() {
    let mut reg = RuntimeRegistry::new();
    let listing = found_listing(vec![subdir("en", vec![ftl("bad.ftl", "1bad\n")])]);
    let err = init_lang(&mut reg, Some("en".to_string()), &listing).unwrap_err();
    assert!(matches!(err, LanguageChoiceError::ResourceParseFailed(n) if n == "bad.ftl"));
}

#[test]
fn clashing_resource_files_are_fatal() {
    let mut reg = RuntimeRegistry::new();
    let listing = found_listing(vec![subdir(
        "en",
        vec![ftl("a.ftl", "hello = one\n"), ftl("b.ftl", "hello = two\n")],
    )]);
    let err = init_lang(&mut reg, Some("en".to_string()), &listing).unwrap_err();
    assert!(matches!(err, LanguageChoiceError::ResourceAddFailed(n) if n == "b.ftl"));
}

#[test]
fn non_resource_files_are_skipped() {
    let mut reg = RuntimeRegistry::new();
    let listing = found_listing(vec![subdir(
        "en",
        vec![ftl("notes.txt", "not ftl at all ==="), ftl("m.ftl", "hello = world\n")],
    )]);
    init_lang(&mut reg, Some("en".to_string()), &listing).unwrap();
    assert_eq!(build_language_0(&reg, "hello").unwrap(), "world");
}

#[test]
fn resource_extension_recognition() {
    assert!(is_resource_file_name("a.ftl"));
    assert!(is_resource_file_name("main.b.ftl"));
    assert!(!is_resource_file_name("ftl"));
    assert!(!is_resource_file_name(".ftl"));
    assert!(!is_resource_file_name("a.txt"));
    assert!(!is_resource_file_name("aftl"));
}

#[test]
fn placeholder_building_blocks() {
    assert_eq!(make_error_replacement("NoSuchMessage", "a"), "<NoSuchMessage - a>");
    let names = vec!["x".to_string(), "y".to_string()];
    assert_eq!(concat_parameters_key("k", &names), "[<k>,x,y]");
    assert_eq!(concat_parameters_key("k", &Vec::new()), "[<k>]");
}

#[test]
fn lookup_before_initialization_fails() {
    let reg = RuntimeRegistry::new();
    let err = build_language_0(&reg, "a").unwrap_err();
    assert!(matches!(err, ResolveError::Uninitialized));
}

#[test]
fn lazily_built_arguments_resolve_like_eager_ones() {
    let mut reg = RuntimeRegistry::new();
    init_lang(&mut reg, Some("en".to_string()), &missing_listing()).unwrap();
    let builders = vec![
        ("cde".to_string(), || ArgValue::Integer(3)),
    ];
    let dest = build_language_fns(&reg, "abc", builders).unwrap();
    assert_eq!(dest, "<NoSuchMessage - [<abc>,cde]>");
}

#[test]
fn fallback_chain_covers_all_ranked_candidates() {
    let mut reg = RuntimeRegistry::new();
    let listing = found_listing(vec![
        subdir("en", Vec::new()),
        subdir("en-GB", vec![ftl("m.ftl", "hello = cheers\n")]),
        subdir("fr", Vec::new()),
    ]);
    init_lang(&mut reg, Some("en-GB".to_string()), &listing).unwrap();
    assert_eq!(build_language_0(&reg, "hello").unwrap(), "cheers");
}

#[test]
fn empty_candidate_list_builds_inert_state() {
    let sys = message_fluent_helper::LanguageSystem::new(Vec::new(), Vec::new(), true).unwrap();
    assert_eq!(sys.current_lang.language, "en");
    assert!(sys.current_lang.script.is_none());
    assert!(sys.current_lang.region.is_none());
    assert_eq!(sys.current_lang.variants.len(), 0);
    assert_eq!(sys.current_lang_dir_path, "");
    match message_fluent_helper::LanguageSystem::new(Vec::new(), Vec::new(), false) {
        Ok(_) => panic!("an inert state must be refused outside the degrade policy"),
        Err(err) => assert!(matches!(err, LanguageChoiceError::NoUsableLanguage)),
    }
}

#[test]
fn message_without_value_is_fatal_in_abort_mode() {
    let mut reg = RuntimeRegistry::new();
    let listing = found_listing(vec![subdir(
        "en",
        vec![ftl("m.ftl", "attr-only =\n    .label = hi\n")],
    )]);
    init_lang_with_donnot_panic(&mut reg, Some("en".to_string()), &listing, false).unwrap();
    let err = build_language_0(&reg, "attr-only").unwrap_err();
    assert!(matches!(err, ResolveError::NoValueFound(k) if k == "attr-only"));
}

#[test]
fn several_clean_resource_files_all_load() {
    let mut reg = RuntimeRegistry::new();
    let listing = found_listing(vec![subdir(
        "en",
        vec![ftl("a.ftl", "hello = world\n"), ftl("b.ftl", "bye = later\n")],
    )]);
    init_lang(&mut reg, Some("en".to_string()), &listing).unwrap();
    assert_eq!(build_language_0(&reg, "hello").unwrap(), "world");
    assert_eq!(build_language_0(&reg, "bye").unwrap(), "later");
}
