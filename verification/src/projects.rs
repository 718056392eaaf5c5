//! Selecting projects of a workspace by the options of a projects query:
//! case-insensitive patterns over a project's fields, the affected filter,
//! and reading a list of touched files.

use crate::text::{split_lines, split_lines_of, views_of};
use regex::{Error as RegexError, Regex};
use vstd::prelude::*;

verus! {

/// `regex::Regex`, a compiled regular expression.
#[verifier::external_type_specification]
#[verifier::external_body]
pub struct ExRegex(Regex);

/// `regex::Error`, why a pattern did not compile.
#[verifier::external_type_specification]
#[verifier::external_body]
pub struct ExRegexError(RegexError);

/// Whether `regex::Regex::new` accepts `pattern`: its syntax is valid and
/// the compiled program stays within the default size limit.
pub uninterp spec fn regex_compiles(pattern: Seq<char>) -> bool;

/// Whether the regular expression `pattern` matches somewhere in `text`,
/// as `regex::Regex::is_match` decides it.
pub uninterp spec fn regex_is_match(pattern: Seq<char>, text: Seq<char>) -> bool;

/// A regular expression together with the pattern it was compiled from.
#[derive(Debug)]
pub struct CompiledPattern {
    source: String,
    regex: Regex,
}

impl CompiledPattern {
    /// The pattern this was compiled from.
    pub closed spec fn source(&self) -> Seq<char> {
        self.source@
    }
}

/// `regex::Regex::new`: compiles `pattern`; succeeds exactly when
/// `regex_compiles` holds of it, and keeps the pattern beside the result.
#[verifier::external_body]
fn compile_pattern(pattern: &str) -> (compiled: Result<CompiledPattern, RegexError>)
    ensures
        compiled is Ok <==> regex_compiles(pattern@),
        compiled matches Ok(c) ==> c.source() == pattern@,
{
    match Regex::new(pattern) {
        Ok(regex) => Ok(CompiledPattern { source: pattern.to_string(), regex }),
        Err(error) => Err(error),
    }
}

/// `regex::Regex::is_match`: whether the compiled pattern matches in `text`.
#[verifier::external_body]
fn pattern_is_match(pattern: &CompiledPattern, text: &str) -> (found: bool)
    ensures
        found == regex_is_match(pattern.source(), text@),
{
    pattern.regex.is_match(text)
}

/// The case-insensitive form of a pattern.
pub open spec fn case_insensitive(pattern: Seq<char>) -> Seq<char> {
    seq!['(', '?', 'i', ')'] + pattern
}

/// The text of an optional string.
pub open spec fn opt_view(value: Option<String>) -> Option<Seq<char>> {
    match value {
        Some(s) => Some(s@),
        None => None,
    }
}

/// A projects query that failed.
#[derive(Debug)]
pub enum QueryError {
    /// The pattern given for `field` is not a valid regular expression.
    InvalidPattern { field: String, pattern: String, error: RegexError },
}

impl QueryError {
    /// The option whose pattern was refused.
    pub closed spec fn spec_field(&self) -> Seq<char> {
        match self {
            QueryError::InvalidPattern { field, .. } => field@,
        }
    }

    /// The refused pattern, in its case-insensitive form.
    pub closed spec fn spec_pattern(&self) -> Seq<char> {
        match self {
            QueryError::InvalidPattern { pattern, .. } => pattern@,
        }
    }

    /// The option whose pattern was refused.
    pub fn field(&self) -> (field: &str)
        ensures
            field@ == self.spec_field(),
    {
        match self {
            QueryError::InvalidPattern { field, .. } => field.as_str(),
        }
    }

    /// The refused pattern, in its case-insensitive form.
    pub fn pattern(&self) -> (pattern: &str)
        ensures
            pattern@ == self.spec_pattern(),
    {
        match self {
            QueryError::InvalidPattern { pattern, .. } => pattern.as_str(),
        }
    }

    /// Why the regular expression engine refused the pattern.
    pub fn regex_error(&self) -> (error: &RegexError)
        ensures
            error == match self {
                QueryError::InvalidPattern { error, .. } => error,
            },
    {
        match self {
            QueryError::InvalidPattern { error, .. } => error,
        }
    }
}

/// Compiles the optional pattern given for `field`, case-insensitively.
pub fn convert_to_regex(field: &str, value: &Option<String>) -> (r: Result<
    Option<CompiledPattern>,
    QueryError,
>)
    ensures
        match opt_view(*value) {
            None => r matches Ok(None),
            Some(p) => if regex_compiles(case_insensitive(p)) {
                r matches Ok(Some(c)) && c.source() == case_insensitive(p)
            } else {
                r matches Err(e) && e.spec_field() == field@ && e.spec_pattern() == case_insensitive(
                    p,
                )
            },
        },
{
    match value {
        None => Ok(None),
        Some(pattern) => {
            let mut source = String::from_str("(?i)");
            source.append(pattern.as_str());
            proof {
                reveal_strlit("(?i)");
            }
            assert(source@ =~= case_insensitive(pattern@));
            match compile_pattern(source.as_str()) {
                Ok(compiled) => Ok(Some(compiled)),
                Err(error) => Err(
                    QueryError::InvalidPattern { field: String::from_str(field), pattern: source, error },
                ),
            }
        },
    }
}

/// The options of a projects query. Each pattern is a regular expression,
/// matched case-insensitively anywhere in the field it names.
#[derive(Debug)]
pub struct QueryProjectsOptions {
    pub alias: Option<String>,
    /// Keep only the projects that the touched files affect.
    pub affected: bool,
    pub id: Option<String>,
    /// Print the result as JSON.
    pub json: bool,
    pub language: Option<String>,
    /// A query in the workspace's query language; when given, it alone
    /// selects the projects (with `affected`), and the patterns are not used.
    pub query: Option<String>,
    pub source: Option<String>,
    /// Matches when any one of a project's tags matches.
    pub tags: Option<String>,
    /// Matches when any one of a project's task names matches.
    pub tasks: Option<String>,
    /// The files that decide whether a project is affected.
    pub touched_files: Vec<String>,
    pub type_of: Option<String>,
}

/// What a projects query reads of a project.
#[derive(Debug)]
pub struct ProjectRecord {
    pub id: String,
    pub alias: Option<String>,
    /// The project's directory, relative to the workspace root.
    pub source: String,
    pub tags: Vec<String>,
    /// The names of the project's tasks.
    pub tasks: Vec<String>,
    /// The project's language, as it is written out.
    pub language: String,
    /// The project's type, as it is written out.
    pub type_of: String,
    /// Whether the touched files of the query affect this project.
    pub affected: bool,
}

/// The result of a projects query, with the options that produced it.
#[derive(Debug)]
pub struct QueryProjectsResult {
    pub projects: Vec<ProjectRecord>,
    pub options: QueryProjectsOptions,
}

/// `text` passes the optional pattern.
pub open spec fn field_matches(pattern: Option<Seq<char>>, text: Seq<char>) -> bool {
    match pattern {
        None => true,
        Some(p) => regex_is_match(case_insensitive(p), text),
    }
}

/// An alias passes the optional pattern, and a missing alias passes any.
pub open spec fn alias_matches(pattern: Option<Seq<char>>, alias: Option<Seq<char>>) -> bool {
    match alias {
        None => true,
        Some(a) => field_matches(pattern, a),
    }
}

/// Some one of `texts` passes the pattern, or there is no pattern.
pub open spec fn any_matches(pattern: Option<Seq<char>>, texts: Seq<Seq<char>>) -> bool {
    ||| pattern is None
    ||| exists|i: int|
        0 <= i < texts.len() && regex_is_match(case_insensitive(pattern->0), #[trigger] texts[i])
}

/// The project passes every filter of the options.
pub open spec fn project_selected(o: QueryProjectsOptions, p: ProjectRecord) -> bool {
    &&& (o.affected ==> p.affected)
    &&& field_matches(opt_view(o.id), p.id@)
    &&& alias_matches(opt_view(o.alias), opt_view(p.alias))
    &&& field_matches(opt_view(o.source), p.source@)
    &&& any_matches(opt_view(o.tags), views_of(p.tags@))
    &&& any_matches(opt_view(o.tasks), views_of(p.tasks@))
    &&& field_matches(opt_view(o.language), p.language@)
    &&& field_matches(opt_view(o.type_of), p.type_of@)
}

/// The project passes the affected filter alone.
pub open spec fn project_affected_ok(o: QueryProjectsOptions, p: ProjectRecord) -> bool {
    o.affected ==> p.affected
}

/// The projects that pass every filter of the options, in their order.
pub open spec fn selected_projects(o: QueryProjectsOptions, projects: Seq<ProjectRecord>) -> Seq<
    ProjectRecord,
> {
    projects.filter(|p: ProjectRecord| project_selected(o, p))
}

/// The projects that pass the affected filter, in their order.
pub open spec fn affected_projects(o: QueryProjectsOptions, projects: Seq<ProjectRecord>) -> Seq<
    ProjectRecord,
> {
    projects.filter(|p: ProjectRecord| project_affected_ok(o, p))
}

/// The optional pattern compiles, in its case-insensitive form.
pub open spec fn pattern_compiles(pattern: Option<Seq<char>>) -> bool {
    match pattern {
        None => true,
        Some(p) => regex_compiles(case_insensitive(p)),
    }
}

/// The first option, in the order alias, id, language, source, tags, tasks,
/// type, whose pattern does not compile: its name and its pattern.
pub open spec fn first_invalid_pattern(o: QueryProjectsOptions) -> Option<(Seq<char>, Seq<char>)> {
    if !pattern_compiles(opt_view(o.alias)) {
        Some((seq!['a', 'l', 'i', 'a', 's'], opt_view(o.alias)->0))
    } else if !pattern_compiles(opt_view(o.id)) {
        Some((seq!['i', 'd'], opt_view(o.id)->0))
    } else if !pattern_compiles(opt_view(o.language)) {
        Some((seq!['l', 'a', 'n', 'g', 'u', 'a', 'g', 'e'], opt_view(o.language)->0))
    } else if !pattern_compiles(opt_view(o.source)) {
        Some((seq!['s', 'o', 'u', 'r', 'c', 'e'], opt_view(o.source)->0))
    } else if !pattern_compiles(opt_view(o.tags)) {
        Some((seq!['t', 'a', 'g', 's'], opt_view(o.tags)->0))
    } else if !pattern_compiles(opt_view(o.tasks)) {
        Some((seq!['t', 'a', 's', 'k', 's'], opt_view(o.tasks)->0))
    } else if !pattern_compiles(opt_view(o.type_of)) {
        Some((seq!['t', 'y', 'p', 'e'], opt_view(o.type_of)->0))
    } else {
        None
    }
}

/// `c` was compiled from the case-insensitive form of `p`, or both are absent.
pub open spec fn compiled_from(c: Option<CompiledPattern>, p: Option<Seq<char>>) -> bool {
    match (c, p) {
        (None, None) => true,
        (Some(c), Some(p)) => c.source() == case_insensitive(p),
        _ => false,
    }
}

/// Whether `text` passes an optional compiled pattern.
fn matches_field(pattern: &Option<CompiledPattern>, text: &str) -> (found: bool)
    ensures
        found == match pattern {
            None => true,
            Some(c) => regex_is_match(c.source(), text@),
        },
{
    match pattern {
        None => true,
        Some(c) => pattern_is_match(c, text),
    }
}

/// Whether some one of `texts` matches the compiled pattern.
fn matches_some(pattern: &CompiledPattern, texts: &Vec<String>) -> (found: bool)
    ensures
        found <==> exists|i: int|
            0 <= i < texts@.len() && #[trigger] regex_is_match(
                pattern.source(),
                views_of(texts@)[i],
            ),
{
    let mut i: usize = 0;
    while i < texts.len()
        invariant
            i <= texts.len(),
            forall|k: int|
                0 <= k < i ==> !#[trigger] regex_is_match(pattern.source(), views_of(texts@)[k]),
        decreases texts.len() - i,
    {
        assert(views_of(texts@)[i as int] == texts@[i as int]@);
        if pattern_is_match(pattern, texts[i].as_str()) {
            return true;
        }
        i = i + 1;
    }
    false
}

/// Whether some one of `texts` passes an optional compiled pattern.
fn matches_any(pattern: &Option<CompiledPattern>, texts: &Vec<String>) -> (found: bool)
    ensures
        pattern is None ==> found,
        pattern matches Some(c) ==> (found <==> exists|i: int|
            0 <= i < texts@.len() && #[trigger] regex_is_match(c.source(), views_of(texts@)[i])),
{
    match pattern {
        None => true,
        Some(c) => matches_some(c, texts),
    }
}

/// The compiled filters of a projects query.
struct ProjectFilters {
    affected: bool,
    alias: Option<CompiledPattern>,
    id: Option<CompiledPattern>,
    language: Option<CompiledPattern>,
    source: Option<CompiledPattern>,
    tags: Option<CompiledPattern>,
    tasks: Option<CompiledPattern>,
    type_of: Option<CompiledPattern>,
}

impl ProjectFilters {
    /// These are the filters of the options.
    spec fn compiled_for(&self, o: QueryProjectsOptions) -> bool {
        &&& self.affected == o.affected
        &&& compiled_from(self.alias, opt_view(o.alias))
        &&& compiled_from(self.id, opt_view(o.id))
        &&& compiled_from(self.language, opt_view(o.language))
        &&& compiled_from(self.source, opt_view(o.source))
        &&& compiled_from(self.tags, opt_view(o.tags))
        &&& compiled_from(self.tasks, opt_view(o.tasks))
        &&& compiled_from(self.type_of, opt_view(o.type_of))
    }

    /// Compiles the patterns of the options, in the order alias, id,
    /// language, source, tags, tasks, type; the first that fails is the error.
    fn compile(options: &QueryProjectsOptions) -> (r: Result<ProjectFilters, QueryError>)
        ensures
            match first_invalid_pattern(*options) {
                Some((field, pattern)) => (r matches Err(e) && e.spec_field() == field
                    && e.spec_pattern() == case_insensitive(pattern)),
                None => (r matches Ok(f) && f.compiled_for(*options)),
            },
    {
        proof {
            reveal_strlit("alias");
            reveal_strlit("id");
            reveal_strlit("language");
            reveal_strlit("source");
            reveal_strlit("tags");
            reveal_strlit("tasks");
            reveal_strlit("type");
        }
        assert("alias"@ =~= seq!['a', 'l', 'i', 'a', 's']);
        assert("id"@ =~= seq!['i', 'd']);
        assert("language"@ =~= seq!['l', 'a', 'n', 'g', 'u', 'a', 'g', 'e']);
        assert("source"@ =~= seq!['s', 'o', 'u', 'r', 'c', 'e']);
        assert("tags"@ =~= seq!['t', 'a', 'g', 's']);
        assert("tasks"@ =~= seq!['t', 'a', 's', 'k', 's']);
        assert("type"@ =~= seq!['t', 'y', 'p', 'e']);
        let alias = convert_to_regex("alias", &options.alias)?;
        let id = convert_to_regex("id", &options.id)?;
        let language = convert_to_regex("language", &options.language)?;
        let source = convert_to_regex("source", &options.source)?;
        let tags = convert_to_regex("tags", &options.tags)?;
        let tasks = convert_to_regex("tasks", &options.tasks)?;
        let type_of = convert_to_regex("type", &options.type_of)?;
        Ok(ProjectFilters { affected: options.affected, alias, id, language, source, tags, tasks, type_of })
    }

    /// Whether the project passes every filter.
    fn accepts(&self, project: &ProjectRecord) -> (accepted: bool)
        ensures
            forall|o: QueryProjectsOptions|
                self.compiled_for(o) ==> (accepted == project_selected(o, *project)),
    {
        if self.affected && !project.affected {
            return false;
        }
        if !matches_field(&self.id, project.id.as_str()) {
            return false;
        }
        match &project.alias {
            Some(alias) => {
                if !matches_field(&self.alias, alias.as_str()) {
                    return false;
                }
            },
            None => {},
        }
        if !matches_field(&self.source, project.source.as_str()) {
            return false;
        }
        if !matches_any(&self.tags, &project.tags) {
            return false;
        }
        if !matches_any(&self.tasks, &project.tasks) {
            return false;
        }
        if !matches_field(&self.language, project.language.as_str()) {
            return false;
        }
        matches_field(&self.type_of, project.type_of.as_str())
    }
}

/// The projects of `projects` that the affected filter keeps, in order.
fn keep_affected(projects: Vec<ProjectRecord>, affected: bool) -> (kept: Vec<ProjectRecord>)
    ensures
        forall|o: QueryProjectsOptions|
            o.affected == affected ==> kept@ == projects@.filter(
                |p: ProjectRecord| project_affected_ok(o, p),
            ),
{
    let ghost all = projects@;
    let mut kept: Vec<ProjectRecord> = Vec::new();
    for project in it: projects
        invariant
            all == it.seq(),
            forall|o: QueryProjectsOptions|
                o.affected == affected ==> kept@ == all.take(it.index() as int).filter(
                    |p: ProjectRecord| project_affected_ok(o, p),
                ),
    {
        if !affected || project.affected {
            kept.push(project);
        }
        assert forall|o: QueryProjectsOptions| o.affected == affected implies kept@ == all.take(
            it.index() + 1,
        ).filter(|p: ProjectRecord| project_affected_ok(o, p)) by {
            let pred = |p: ProjectRecord| project_affected_ok(o, p);
            assert(all.take(it.index() + 1) =~= all.take(it.index() as int).push(project));
            all.take(it.index() as int).lemma_filter_push(project, pred);
        }
    }
    assert(all.take(all.len() as int) =~= all);
    kept
}

/// The projects of `projects` that pass every filter, in order.
fn keep_selected(projects: Vec<ProjectRecord>, filters: &ProjectFilters) -> (kept: Vec<ProjectRecord>)
    ensures
        forall|o: QueryProjectsOptions|
            filters.compiled_for(o) ==> kept@ == projects@.filter(
                |p: ProjectRecord| project_selected(o, p),
            ),
{
    let ghost all = projects@;
    let mut kept: Vec<ProjectRecord> = Vec::new();
    for project in it: projects
        invariant
            all == it.seq(),
            forall|o: QueryProjectsOptions|
                filters.compiled_for(o) ==> kept@ == all.take(it.index() as int).filter(
                    |p: ProjectRecord| project_selected(o, p),
                ),
    {
        if filters.accepts(&project) {
            kept.push(project);
        }
        assert forall|o: QueryProjectsOptions| filters.compiled_for(o) implies kept@ == all.take(
            it.index() + 1,
        ).filter(|p: ProjectRecord| project_selected(o, p)) by {
            let pred = |p: ProjectRecord| project_selected(o, p);
            assert(all.take(it.index() + 1) =~= all.take(it.index() as int).push(project));
            all.take(it.index() as int).lemma_filter_push(project, pred);
        }
    }
    assert(all.take(all.len() as int) =~= all);
    kept
}

/// The projects of a query, in their order. `projects` is what the
/// project graph gave: the projects that `options.query` selects when it is
/// given, else all projects of the workspace. With a query, only the
/// affected filter applies; without one, every pattern must compile (else
/// the first that does not is the error) and the projects that pass every
/// filter are kept.
pub fn query_projects(options: &QueryProjectsOptions, projects: Vec<ProjectRecord>) -> (r: Result<
    Vec<ProjectRecord>,
    QueryError,
>)
    ensures
        options.query is Some ==> (r matches Ok(kept) && kept@ == affected_projects(
            *options,
            projects@,
        )),
        options.query is None ==> match first_invalid_pattern(*options) {
            Some((field, pattern)) => (r matches Err(e) && e.spec_field() == field
                && e.spec_pattern() == case_insensitive(pattern)),
            None => (r matches Ok(kept) && kept@ == selected_projects(*options, projects@)),
        },
{
    if options.query.is_some() {
        return Ok(keep_affected(projects, options.affected));
    }
    let filters = ProjectFilters::compile(options)?;
    Ok(keep_selected(projects, &filters))
}

/// How piped input names the touched files.
#[derive(Debug)]
pub enum TouchedFilesInput {
    /// Nothing was piped: the touched files come from version control.
    FromVcs,
    /// A JSON document of touched files (it starts with `{`).
    Json,
    /// One file per line.
    Lines(Vec<String>),
}

/// Reads piped input: empty input defers to version control, input that
/// starts with `{` is JSON, and any other input lists one file per line
/// (every piece between line feeds, empty ones included).
pub fn parse_touched_files_input(buffer: &str) -> (input: TouchedFilesInput)
    ensures
        buffer@.len() == 0 ==> input is FromVcs,
        buffer@.len() > 0 && buffer@[0] == '{' ==> input is Json,
        buffer@.len() > 0 && buffer@[0] != '{' ==> (input matches TouchedFilesInput::Lines(files)
            && views_of(files@) == split_lines(buffer@)),
{
    if buffer.is_empty() {
        TouchedFilesInput::FromVcs
    } else if buffer.get_char(0) == '{' {
        TouchedFilesInput::Json
    } else {
        TouchedFilesInput::Lines(split_lines_of(buffer))
    }
}

/// Filtering what a filter kept keeps all of it.
proof fn lemma_filter_idempotent(s: Seq<ProjectRecord>, pred: spec_fn(ProjectRecord) -> bool)
    ensures
        s.filter(pred).filter(pred) == s.filter(pred),
    decreases s.len(),
{
    reveal(Seq::filter);
    if s.len() > 0 {
        lemma_filter_idempotent(s.drop_last(), pred);
        let sub = s.drop_last().filter(pred);
        if pred(s.last()) {
            assert(sub.push(s.last()).drop_last() =~= sub);
        }
    }
}

/// Querying the result of a query again, with the same options, gives the
/// same projects: every project a query keeps passes it.
pub proof fn lemma_query_idempotent(options: QueryProjectsOptions, projects: Seq<ProjectRecord>)
    ensures
        selected_projects(options, selected_projects(options, projects)) == selected_projects(
            options,
            projects,
        ),
        affected_projects(options, affected_projects(options, projects)) == affected_projects(
            options,
            projects,
        ),
{
    lemma_filter_idempotent(projects, |p: ProjectRecord| project_selected(options, p));
    lemma_filter_idempotent(projects, |p: ProjectRecord| project_affected_ok(options, p));
}

/// Keeping everything keeps the sequence as it is.
proof fn lemma_filter_all(s: Seq<ProjectRecord>, pred: spec_fn(ProjectRecord) -> bool)
    requires
        forall|p: ProjectRecord| #[trigger] pred(p),
    ensures
        s.filter(pred) == s,
    decreases s.len(),
{
    reveal(Seq::filter);
    if s.len() > 0 {
        lemma_filter_all(s.drop_last(), pred);
        assert(s.drop_last().push(s.last()) =~= s);
    }
}

/// A query without patterns and without the affected filter lists every
/// project, and no pattern can fail.
pub proof fn lemma_query_without_filters_keeps_all(
    options: QueryProjectsOptions,
    projects: Seq<ProjectRecord>,
)
    requires
        options.alias is None,
        options.id is None,
        options.language is None,
        options.source is None,
        options.tags is None,
        options.tasks is None,
        options.type_of is None,
        !options.affected,
    ensures
        first_invalid_pattern(options) is None,
        selected_projects(options, projects) == projects,
        affected_projects(options, projects) == projects,
{
    lemma_filter_all(projects, |p: ProjectRecord| project_selected(options, p));
    lemma_filter_all(projects, |p: ProjectRecord| project_affected_ok(options, p));
}

/// With the affected filter on, a query lists only affected projects,
/// whether or not a query selects them.
pub proof fn lemma_affected_query_lists_only_affected(
    options: QueryProjectsOptions,
    projects: Seq<ProjectRecord>,
)
    requires
        options.affected,
    ensures
        forall|i: int|
            0 <= i < selected_projects(options, projects).len() ==> (#[trigger] selected_projects(
                options,
                projects,
            )[i]).affected,
        forall|i: int|
            0 <= i < affected_projects(options, projects).len() ==> (#[trigger] affected_projects(
                options,
                projects,
            )[i]).affected,
{
    broadcast use vstd::seq_lib::group_filter_ensures;

}

/// A query in the query language takes full precedence over the patterns:
/// two queries that agree on the affected filter keep the same projects,
/// whatever patterns they give.
pub proof fn lemma_query_language_overrides_patterns(
    first: QueryProjectsOptions,
    second: QueryProjectsOptions,
    projects: Seq<ProjectRecord>,
)
    requires
        first.affected == second.affected,
    ensures
        affected_projects(first, projects) == affected_projects(second, projects),
{
    let p1 = |p: ProjectRecord| project_affected_ok(first, p);
    let p2 = |p: ProjectRecord| project_affected_ok(second, p);
    assert(p1 =~= p2);
}

/// `narrower` keeps every filter of `wider` and may add more: each pattern
/// of `wider` is kept as it is, and the affected filter stays on if it was.
pub open spec fn narrows(narrower: QueryProjectsOptions, wider: QueryProjectsOptions) -> bool {
    &&& (wider.alias is None || narrower.alias == wider.alias)
    &&& (wider.id is None || narrower.id == wider.id)
    &&& (wider.language is None || narrower.language == wider.language)
    &&& (wider.source is None || narrower.source == wider.source)
    &&& (wider.tags is None || narrower.tags == wider.tags)
    &&& (wider.tasks is None || narrower.tasks == wider.tasks)
    &&& (wider.type_of is None || narrower.type_of == wider.type_of)
    &&& (wider.affected ==> narrower.affected)
}

/// Filtering by a stronger predicate after a weaker one is filtering by the
/// stronger one alone.
proof fn lemma_filter_narrowing(
    s: Seq<ProjectRecord>,
    weak: spec_fn(ProjectRecord) -> bool,
    strong: spec_fn(ProjectRecord) -> bool,
)
    requires
        forall|p: ProjectRecord| #[trigger] strong(p) ==> weak(p),
    ensures
        s.filter(weak).filter(strong) == s.filter(strong),
    decreases s.len(),
{
    reveal(Seq::filter);
    if s.len() > 0 {
        lemma_filter_narrowing(s.drop_last(), weak, strong);
        let sub = s.drop_last().filter(weak);
        if weak(s.last()) {
            assert(sub.push(s.last()).drop_last() =~= sub);
        }
    }
}

/// Adding filters to a query never adds or reorders projects: what the
/// narrower query keeps is what the wider one keeps, filtered further, so a
/// subsequence of it.
pub proof fn lemma_narrower_query_keeps_subsequence(
    narrower: QueryProjectsOptions,
    wider: QueryProjectsOptions,
    projects: Seq<ProjectRecord>,
)
    requires
        narrows(narrower, wider),
    ensures
        selected_projects(narrower, projects) == selected_projects(wider, projects).filter(
            |p: ProjectRecord| project_selected(narrower, p),
        ),
        affected_projects(narrower, projects) == affected_projects(wider, projects).filter(
            |p: ProjectRecord| project_affected_ok(narrower, p),
        ),
{
    let weak = |p: ProjectRecord| project_selected(wider, p);
    let strong = |p: ProjectRecord| project_selected(narrower, p);
    assert forall|p: ProjectRecord| #[trigger] strong(p) implies weak(p) by {}
    lemma_filter_narrowing(projects, weak, strong);
    let weak_affected = |p: ProjectRecord| project_affected_ok(wider, p);
    let strong_affected = |p: ProjectRecord| project_affected_ok(narrower, p);
    assert forall|p: ProjectRecord| #[trigger] strong_affected(p) implies weak_affected(p) by {}
    lemma_filter_narrowing(projects, weak_affected, strong_affected);
}

/// Whether an optional pattern, made case-insensitive, matches `text`
/// (no pattern matches everything).
pub open spec fn optional_pattern_matches(pattern: Option<String>, text: Seq<char>) -> bool {
    match pattern {
        None => true,
        Some(p) => regex_is_match(seq!['(', '?', 'i', ')'] + p@, text),
    }
}

/// What selecting a project means: it is affected if the affected filter
/// is on; its id, source, language and type match their patterns; its
/// alias matches, or it has none; and some one of its tags, and some one of
/// its task names, matches, when those patterns are given. Every pattern is
/// matched case-insensitively, by prefixing `(?i)`.
pub proof fn lemma_project_selected_means(o: QueryProjectsOptions, q: ProjectRecord)
    ensures
        project_selected(o, q) <==> {
            &&& (o.affected ==> q.affected)
            &&& optional_pattern_matches(o.id, q.id@)
            &&& match q.alias {
                None => true,
                Some(a) => optional_pattern_matches(o.alias, a@),
            }
            &&& optional_pattern_matches(o.source, q.source@)
            &&& match o.tags {
                None => true,
                Some(p) => exists|i: int|
                    0 <= i < q.tags@.len() && regex_is_match(
                        seq!['(', '?', 'i', ')'] + p@,
                        (#[trigger] q.tags@[i])@,
                    ),
            }
            &&& match o.tasks {
                None => true,
                Some(p) => exists|i: int|
                    0 <= i < q.tasks@.len() && regex_is_match(
                        seq!['(', '?', 'i', ')'] + p@,
                        (#[trigger] q.tasks@[i])@,
                    ),
            }
            &&& optional_pattern_matches(o.language, q.language@)
            &&& optional_pattern_matches(o.type_of, q.type_of@)
        },
{
    lemma_any_matches_means(o.tags, q.tags@);
    lemma_any_matches_means(o.tasks, q.tasks@);
    match o.id {
        Some(p) => assert(case_insensitive(p@) =~= seq!['(', '?', 'i', ')'] + p@),
        None => {},
    }
    match o.alias {
        Some(p) => assert(case_insensitive(p@) =~= seq!['(', '?', 'i', ')'] + p@),
        None => {},
    }
    match o.source {
        Some(p) => assert(case_insensitive(p@) =~= seq!['(', '?', 'i', ')'] + p@),
        None => {},
    }
    match o.language {
        Some(p) => assert(case_insensitive(p@) =~= seq!['(', '?', 'i', ')'] + p@),
        None => {},
    }
    match o.type_of {
        Some(p) => assert(case_insensitive(p@) =~= seq!['(', '?', 'i', ')'] + p@),
        None => {},
    }
}

proof fn lemma_any_matches_means(pattern: Option<String>, texts: Seq<String>)
    ensures
        any_matches(opt_view(pattern), views_of(texts)) <==> match pattern {
            None => true,
            Some(p) => exists|i: int|
                0 <= i < texts.len() && regex_is_match(
                    seq!['(', '?', 'i', ')'] + p@,
                    (#[trigger] texts[i])@,
                ),
        },
{
    match pattern {
        None => {},
        Some(p) => {
            let ci = seq!['(', '?', 'i', ')'] + p@;
            assert(case_insensitive(p@) =~= ci);
            assert(opt_view(pattern) == Some(p@));
            assert(views_of(texts).len() == texts.len());
            if any_matches(opt_view(pattern), views_of(texts)) {
                let i = choose|i: int|
                    0 <= i < views_of(texts).len() && #[trigger] regex_is_match(
                        case_insensitive(p@),
                        views_of(texts)[i],
                    );
                assert(views_of(texts)[i] == texts[i]@);
                assert(regex_is_match(ci, texts[i]@));
            }
            if exists|i: int| 0 <= i < texts.len() && regex_is_match(ci, (#[trigger] texts[i])@) {
                let i = choose|i: int|
                    0 <= i < texts.len() && regex_is_match(ci, (#[trigger] texts[i])@);
                assert(views_of(texts)[i] == texts[i]@);
                assert(regex_is_match(case_insensitive(p@), views_of(texts)[i]));

            }
        },
    }
}

/// With only a tags pattern, a project is kept exactly when some one of its
/// tags, at any position, matches the pattern case-insensitively.
pub proof fn lemma_tags_filter_keeps_any_matching_tag(
    o: QueryProjectsOptions,
    q: ProjectRecord,
    pattern: String,
)
    requires
        o.tags == Some(pattern),
        o.alias is None,
        o.id is None,
        o.language is None,
        o.source is None,
        o.tasks is None,
        o.type_of is None,
        !o.affected,
    ensures
        project_selected(o, q) <==> exists|i: int|
            0 <= i < q.tags@.len() && regex_is_match(
                seq!['(', '?', 'i', ')'] + pattern@,
                (#[trigger] q.tags@[i])@,
            ),
{
    lemma_project_selected_means(o, q);
}

/// With only a tasks pattern, a project is kept exactly when some one of its
/// task names, at any position, matches the pattern case-insensitively.
pub proof fn lemma_tasks_filter_keeps_any_matching_task(
    o: QueryProjectsOptions,
    q: ProjectRecord,
    pattern: String,
)
    requires
        o.tasks == Some(pattern),
        o.alias is None,
        o.id is None,
        o.language is None,
        o.source is None,
        o.tags is None,
        o.type_of is None,
        !o.affected,
    ensures
        project_selected(o, q) <==> exists|i: int|
            0 <= i < q.tasks@.len() && regex_is_match(
                seq!['(', '?', 'i', ')'] + pattern@,
                (#[trigger] q.tasks@[i])@,
            ),
{
    lemma_project_selected_means(o, q);
}

/// A query in the query language lists every project it selected that the
/// affected filter lets through (all of them when the filter is off, the
/// affected ones when it is on), whatever their other fields, and nothing
/// else, in their order.
pub proof fn lemma_query_language_result(o: QueryProjectsOptions, projects: Seq<ProjectRecord>)
    ensures
        forall|p: ProjectRecord| project_affected_ok(o, p) <==> (!o.affected || p.affected),
        forall|i: int|
            0 <= i < projects.len() && (!o.affected || projects[i].affected) ==> #[trigger] affected_projects(
                o,
                projects,
            ).contains(projects[i]),
        forall|i: int|
            0 <= i < affected_projects(o, projects).len() ==> (!o.affected || (
            #[trigger] affected_projects(o, projects)[i]).affected),
        !o.affected ==> affected_projects(o, projects) == projects,
{
    broadcast use vstd::seq_lib::group_filter_ensures;

    if !o.affected {
        lemma_filter_all(projects, |p: ProjectRecord| project_affected_ok(o, p));
    }
}

/// A query without a query-language query lists every project that passes
/// all its filters, and only such projects, never more than it was given.
pub proof fn lemma_selected_projects_are_those_passing(
    o: QueryProjectsOptions,
    projects: Seq<ProjectRecord>,
)
    ensures
        forall|i: int|
            0 <= i < projects.len() && project_selected(o, projects[i]) ==> #[trigger] selected_projects(
                o,
                projects,
            ).contains(projects[i]),
        forall|i: int|
            0 <= i < selected_projects(o, projects).len() ==> project_selected(
                o,
                #[trigger] selected_projects(o, projects)[i],
            ),
        selected_projects(o, projects).len() <= projects.len(),
{
    broadcast use vstd::seq_lib::group_filter_ensures;

}

} // verus!
