use behest::skills::{
    is_skill_file_name, parse_skill_file, split_frontmatter, FrontmatterValue, Skill,
    SkillFile, SkillRegistry, StableKnowledge,
};

#[test]
fn skill_builder_methods() {
    let skill = Skill::new("git".to_string(), "Git guide".to_string(), "Always commit often".to_string())
        .with_source_path("/skills/git/SKILL.md".to_string())
        .with_allowed_tools(vec!["bash".into()]);
    assert_eq!(skill.name, "git");
    assert!(skill.source_path.is_some());
    assert_eq!(skill.allowed_tools, vec!["bash".to_string()]);
}

#[test]
fn registry_register_and_get() {
    let mut reg = SkillRegistry::new();
    assert!(reg.is_empty());
    reg.register(Skill::new("a".to_string(), "desc a".to_string(), "body a".to_string()));
    assert_eq!(reg.len(), 1);
    assert!(reg.get("a").is_some());
    assert_eq!(reg.version(), 1);
}

#[test]
fn registry_remove() {
    let mut reg = SkillRegistry::new();
    reg.register(Skill::new("a".to_string(), "desc".to_string(), "body".to_string()));
    let removed = reg.remove("a");
    assert!(removed.is_some());
    assert!(reg.is_empty());
    assert_eq!(reg.version(), 2);
}

#[test]
fn registry_replace_bumps_version() {
    let mut reg = SkillRegistry::new();
    reg.register(Skill::new("a".to_string(), "desc1".to_string(), "body1".to_string()));
    let v1 = reg.version();
    reg.register(Skill::new("a".to_string(), "desc2".to_string(), "body2".to_string()));
    assert_eq!(reg.version(), v1 + 1);
    assert_eq!(reg.get("a").unwrap().description, "desc2");
}

#[test]
fn render_catalog_empty() {
    let reg = SkillRegistry::new();
    assert_eq!(reg.render_catalog(), "");
}

#[test]
fn render_catalog_sorted() {
    let mut reg = SkillRegistry::new();
    reg.register(Skill::new("zebra".to_string(), "z desc".to_string(), "z body".to_string()));
    reg.register(Skill::new("alpha".to_string(), "a desc".to_string(), "a body".to_string()));
    let catalog = reg.render_catalog();
    let zebra_pos = catalog.find("## zebra").unwrap();
    let alpha_pos = catalog.find("## alpha").unwrap();
    assert!(alpha_pos < zebra_pos);
}

#[test]
fn render_full_includes_body() {
    let mut reg = SkillRegistry::new();
    reg.register(Skill::new("git".to_string(), "Git guide".to_string(), "Always commit often".to_string()));
    let full = reg.render_full();
    assert!(full.contains("Always commit often"));
    assert!(full.contains("## git"));
}

#[test]
fn names_sorted() {
    let mut reg = SkillRegistry::new();
    reg.register(Skill::new("zebra".to_string(), String::new(), String::new()));
    reg.register(Skill::new("alpha".to_string(), String::new(), String::new()));
    assert_eq!(reg.names(), vec!["alpha".to_string(), "zebra".to_string()]);
}

#[test]
fn stable_knowledge_new_slot_is_stale() {
    let cache = StableKnowledge::new();
    assert!(cache.is_stale("skills", "content", 1));
}

#[test]
fn stable_knowledge_update_makes_not_stale() {
    let mut cache = StableKnowledge::new();
    cache.update("skills", "content".to_string(), 1);
    assert!(!cache.is_stale("skills", "content", 1));
}

#[test]
fn stable_knowledge_content_change_makes_stale() {
    let mut cache = StableKnowledge::new();
    cache.update("skills", "old".to_string(), 1);
    assert!(cache.is_stale("skills", "new", 1));
}

#[test]
fn stable_knowledge_version_change_makes_stale() {
    let mut cache = StableKnowledge::new();
    cache.update("skills", "same".to_string(), 1);
    assert!(cache.is_stale("skills", "same", 2));
}

#[test]
fn stable_knowledge_invalidate() {
    let mut cache = StableKnowledge::new();
    cache.update("skills", "content".to_string(), 1);
    cache.invalidate("skills");
    assert!(cache.is_stale("skills", "content", 1));
}

#[test]
fn stable_knowledge_cached_accessors() {
    let mut cache = StableKnowledge::new();
    cache.update("skills", "content".to_string(), 5);
    assert_eq!(cache.cached_content("skills"), Some("content"));
    assert_eq!(cache.cached_version("skills"), Some(5));
    assert_eq!(cache.cached_content("missing"), None);
}

fn text_field(v: Option<&FrontmatterValue>) -> Option<String> {
    match v {
        Some(FrontmatterValue::Text(s)) => Some(s.clone()),
        _ => None,
    }
}

#[test]
fn split_frontmatter_parses_yaml() {
    let raw = "---\nname: my-skill\ndescription: A test skill\n---\nBody content here.";
    let (fm, body) = split_frontmatter(raw);
    assert_eq!(text_field(fm.get("name")), Some("my-skill".to_string()));
    assert_eq!(text_field(fm.get("description")), Some("A test skill".to_string()));
    assert_eq!(body, "Body content here.");
}

#[test]
fn split_frontmatter_parses_list() {
    let raw = "---\nname: my-skill\nallowed_tools:\n  - read_file\n  - grep\n---\nBody";
    let (fm, body) = split_frontmatter(raw);
    assert_eq!(text_field(fm.get("name")), Some("my-skill".to_string()));
    let tools = match fm.get("allowed_tools") {
        Some(FrontmatterValue::List(l)) => l.clone(),
        _ => panic!("expected a list"),
    };
    assert_eq!(tools.len(), 2);
    assert_eq!(tools[0], "read_file");
    assert_eq!(body, "Body");
}

#[test]
fn split_frontmatter_no_frontmatter() {
    let raw = "Just body, no frontmatter.";
    let (fm, body) = split_frontmatter(raw);
    assert!(fm.is_empty());
    assert_eq!(body, "Just body, no frontmatter.");
}

#[test]
fn split_frontmatter_unclosed_frontmatter() {
    let raw = "---\nname: broken\nNo closing delimiter";
    let (fm, _body) = split_frontmatter(raw);
    assert!(fm.is_empty());
}

#[test]
fn parse_skill_file_reads_fields() {
    let raw = "---\nname: test-skill\ndescription: \"A test\"\n# comment\nallowed_tools:\n  - bash\n---\n\nTest body content.  \n";
    let skill = parse_skill_file(raw, "/tmp/skills/SKILL.md").ok().unwrap();
    assert_eq!(skill.name, "test-skill");
    assert_eq!(skill.description, "A test");
    assert_eq!(skill.content, "Test body content.");
    assert_eq!(skill.source_path, Some("/tmp/skills/SKILL.md".to_string()));
    assert_eq!(skill.allowed_tools, vec!["bash".to_string()]);
}

#[test]
fn parse_skill_file_missing_name_errors() {
    let err = parse_skill_file("---\ndescription: no name\n---\nBody", "x/SKILL.md")
        .err()
        .unwrap();
    assert_eq!(err.message(), "skill x/SKILL.md missing 'name' field");
}

#[test]
fn load_skill_files_registers_in_order_and_stops_at_error() {
    let mut reg = SkillRegistry::new();
    let files = vec![
        SkillFile { path: "a/SKILL.md".to_string(), text: "---\nname: top\n---\nTop body".to_string() },
        SkillFile { path: "b/SKILL.md".to_string(), text: "---\nname: nested\n---\nNested body".to_string() },
    ];
    let loaded = reg.load_skill_files(&files).ok().unwrap();
    assert_eq!(loaded, vec!["top".to_string(), "nested".to_string()]);
    assert_eq!(reg.version(), 2);
    let bad = vec![
        SkillFile { path: "c/SKILL.md".to_string(), text: "---\nname: third\n---\nx".to_string() },
        SkillFile { path: "d/SKILL.md".to_string(), text: "no frontmatter".to_string() },
    ];
    assert!(reg.load_skill_files(&bad).is_err());
    assert!(reg.get("third").is_some());
}

#[test]
fn skill_file_name_ignores_ascii_case() {
    assert!(is_skill_file_name("SKILL.md"));
    assert!(is_skill_file_name("skill.MD"));
    assert!(!is_skill_file_name("SKILL.txt"));
    assert!(!is_skill_file_name("README.md"));
}

#[test]
fn render_catalog_exact_text() {
    let mut reg = SkillRegistry::new();
    reg.register(Skill::new("b".to_string(), "desc b".to_string(), "body".to_string()));
    reg.register(
        Skill::new("a".to_string(), "desc a".to_string(), "body".to_string())
            .with_source_path("/p/SKILL.md".to_string()),
    );
    assert_eq!(
        reg.render_catalog(),
        "## a\ndesc a\nPath: /p/SKILL.md\n\n## b\ndesc b\nPath: (inline)"
    );
}
