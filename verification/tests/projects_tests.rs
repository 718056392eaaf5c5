use moon_core::projects::{
    convert_to_regex, parse_touched_files_input, query_projects, ProjectRecord,
    QueryProjectsOptions, TouchedFilesInput,
};

fn options() -> QueryProjectsOptions {
    QueryProjectsOptions {
        alias: None,
        affected: false,
        id: None,
        json: false,
        language: None,
        query: None,
        source: None,
        tags: None,
        tasks: None,
        touched_files: Vec::new(),
        type_of: None,
    }
}

fn project(id: &str, alias: Option<&str>, source: &str, tags: &[&str], tasks: &[&str], language: &str, type_of: &str, affected: bool) -> ProjectRecord {
    ProjectRecord {
        id: id.to_string(),
        alias: alias.map(|a| a.to_string()),
        source: source.to_string(),
        tags: tags.iter().map(|t| t.to_string()).collect(),
        tasks: tasks.iter().map(|t| t.to_string()).collect(),
        language: language.to_string(),
        type_of: type_of.to_string(),
        affected,
    }
}

fn workspace() -> Vec<ProjectRecord> {
    vec![
        project("web", Some("@app/web"), "apps/web", &["frontend", "react"], &["build", "dev"], "typescript", "application", true),
        project("api", None, "apps/api", &["backend"], &["build", "serve"], "rust", "application", false),
        project("utils", Some("@lib/utils"), "packages/utils", &[], &["test"], "typescript", "library", true),
    ]
}

fn ids(projects: &[ProjectRecord]) -> Vec<String> {
    projects.iter().map(|p| p.id.clone()).collect()
}

#[test]
fn no_filters_keeps_everything() {
    let kept = query_projects(&options(), workspace()).unwrap();
    assert_eq!(ids(&kept), vec!["web", "api", "utils"]);
}

#[test]
fn id_pattern_is_case_insensitive_and_unanchored() {
    let mut o = options();
    o.id = Some("A".to_string());
    assert_eq!(ids(&query_projects(&o, workspace()).unwrap()), vec!["api"]);
    o.id = Some("^(web|utils)$".to_string());
    assert_eq!(ids(&query_projects(&o, workspace()).unwrap()), vec!["web", "utils"]);
}

#[test]
fn alias_pattern_passes_projects_without_alias() {
    let mut o = options();
    o.alias = Some("@app".to_string());
    assert_eq!(ids(&query_projects(&o, workspace()).unwrap()), vec!["web", "api"]);
}

#[test]
fn tags_and_tasks_match_any() {
    let mut o = options();
    o.tags = Some("REACT|backend".to_string());
    assert_eq!(ids(&query_projects(&o, workspace()).unwrap()), vec!["web", "api"]);
    let mut o = options();
    o.tasks = Some("^serve$".to_string());
    assert_eq!(ids(&query_projects(&o, workspace()).unwrap()), vec!["api"]);
}

#[test]
fn source_language_and_type_filters() {
    let mut o = options();
    o.source = Some("^packages/".to_string());
    assert_eq!(ids(&query_projects(&o, workspace()).unwrap()), vec!["utils"]);
    let mut o = options();
    o.language = Some("typescript".to_string());
    o.type_of = Some("application".to_string());
    assert_eq!(ids(&query_projects(&o, workspace()).unwrap()), vec!["web"]);
}

#[test]
fn affected_filter_keeps_affected_projects() {
    let mut o = options();
    o.affected = true;
    assert_eq!(ids(&query_projects(&o, workspace()).unwrap()), vec!["web", "utils"]);
}

#[test]
fn query_overrides_patterns_but_not_affected() {
    let mut o = options();
    o.query = Some("language=rust".to_string());
    o.id = Some("(".to_string());
    o.affected = true;
    assert_eq!(ids(&query_projects(&o, workspace()).unwrap()), vec!["web", "utils"]);
}

#[test]
fn first_invalid_pattern_is_the_error() {
    let mut o = options();
    o.tags = Some("(".to_string());
    o.language = Some("[".to_string());
    let err = query_projects(&o, workspace()).err().unwrap();
    assert_eq!(err.field(), "language");
    assert_eq!(err.pattern(), "(?i)[");
}

#[test]
fn convert_to_regex_cases() {
    assert!(convert_to_regex("id", &None).unwrap().is_none());
    assert!(convert_to_regex("id", &Some("web".to_string())).unwrap().is_some());
    let err = convert_to_regex("type", &Some("(".to_string())).err().unwrap();
    assert_eq!(err.field(), "type");
    assert_eq!(err.pattern(), "(?i)(");
    assert!(!err.regex_error().to_string().is_empty());
}

#[test]
fn query_is_idempotent() {
    let mut o = options();
    o.tags = Some("e".to_string());
    let once = query_projects(&o, workspace()).unwrap();
    let twice = query_projects(&o, query_projects(&o, workspace()).unwrap()).unwrap();
    assert_eq!(ids(&once), ids(&twice));
}

#[test]
fn touched_files_input_kinds() {
    assert!(matches!(parse_touched_files_input(""), TouchedFilesInput::FromVcs));
    assert!(matches!(parse_touched_files_input("{\"files\":[]}"), TouchedFilesInput::Json));
    match parse_touched_files_input("a.ts\nb.ts\n") {
        TouchedFilesInput::Lines(files) => assert_eq!(files, vec!["a.ts", "b.ts", ""]),
        _ => panic!("expected lines"),
    }
}

#[test]
fn adding_a_filter_keeps_a_subsequence() {
    let wider = options();
    let mut narrower = options();
    narrower.language = Some("typescript".to_string());
    let all = ids(&query_projects(&wider, workspace()).unwrap());
    let some = ids(&query_projects(&narrower, workspace()).unwrap());
    assert_eq!(some, vec!["web", "utils"]);
    let mut rest = all.iter();
    assert!(some.iter().all(|id| rest.any(|other| other == id)));
}
