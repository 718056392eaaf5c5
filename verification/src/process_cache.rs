//! A cache of command outputs: each command, known by its cache key, runs
//! at most once, and later runs read what the first one stored.

use crate::text::{trim_end, trim_start, trim_whitespace, trimmed};
use once_map::{OnceMap, RandomState};
use std::path::PathBuf;
use vstd::prelude::*;

verus! {

/// `once_map::OnceMap`, a map whose entries, once inserted, never change.
#[verifier::external_type_specification]
#[verifier::external_body]
#[verifier::reject_recursive_types(K)]
#[verifier::reject_recursive_types(V)]
#[verifier::reject_recursive_types(S)]
pub struct ExOnceMap<K, V, S>(OnceMap<K, V, S>);

/// `once_map::RandomState`, the map's default hasher builder.
#[verifier::external_type_specification]
#[verifier::external_body]
pub struct ExOnceMapRandomState(RandomState);

/// The entries of an output map: cache key to output.
pub uninterp spec fn once_map_entries(map: OnceMap<String, String>) -> Map<Seq<char>, Seq<char>>;

/// No outputs at all.
pub open spec fn empty_outputs() -> Map<Seq<char>, Seq<char>> {
    Map::empty()
}

/// `OnceMap::new`: an empty map.
#[verifier::external_body]
fn once_map_new() -> (created: OnceMap<String, String>)
    ensures
        once_map_entries(created) == empty_outputs(),
{
    OnceMap::new()
}

/// `OnceMap::contains_key`: whether the key has an entry.
#[verifier::external_body]
fn once_map_contains_key(map: &OnceMap<String, String>, key: &String) -> (found: bool)
    ensures
        found == once_map_entries(*map).contains_key(key@),
{
    map.contains_key(key)
}

/// `OnceMap::get`: the entry of the key, if it has one.
#[verifier::external_body]
fn once_map_get<'a>(map: &'a OnceMap<String, String>, key: &String) -> (value: Option<&'a str>)
    ensures
        match value {
            Some(v) => once_map_entries(*map).contains_key(key@) && v@ == once_map_entries(
                *map,
            )[key@],
            None => !once_map_entries(*map).contains_key(key@),
        },
{
    map.get(key)
}

/// `OnceMap::insert`: stores `value` under `key` unless the key already has
/// an entry, which then stays as it was.
#[verifier::external_body]
fn once_map_insert(map: &mut OnceMap<String, String>, key: String, value: String)
    ensures
        once_map_entries(*final(map)) == if once_map_entries(*old(map)).contains_key(key@) {
            once_map_entries(*old(map))
        } else {
            once_map_entries(*old(map)).insert(key@, value@)
        },
{
    map.insert(key, move |_| value);
}

/// `std::path::PathBuf`, an owned file system path, held as it is.
#[verifier::external_type_specification]
#[verifier::external_body]
pub struct ExPathBuf(PathBuf);

/// `<PathBuf as Clone>::clone`: the same path.
#[verifier::external_body]
fn clone_path(path: &PathBuf) -> (copy: PathBuf)
    ensures
        copy == *path,
{
    path.clone()
}

/// A command to run: the program, its arguments (of whatever type the
/// caller passes them in) and its working directory.
pub struct CommandLine<A> {
    pub bin: String,
    pub args: Vec<A>,
    pub cwd: PathBuf,
}

/// Why a cached run could not complete.
#[derive(Clone, Copy, Debug, PartialEq, Eq, Structural)]
pub enum ProcessCacheError {
    /// The command had not run yet, and no output of it was given.
    MissingOutput,
}

/// Runs of one program from the workspace root, each output kept by its
/// cache key.
pub struct ProcessCache {
    cache: OnceMap<String, String>,
    /// The program to run.
    pub bin: String,
    /// The workspace root, where commands run.
    pub root: PathBuf,
}

/// What a run gives back of an output: trimmed or as it is.
pub open spec fn shown_output(output: Seq<char>, trim: bool) -> Seq<char> {
    if trim {
        trimmed(output)
    } else {
        output
    }
}

/// The outcome of a run, given the outputs cached before it, the cache key,
/// the captured output (if the command ran) and what the formatter made of
/// it: the outputs after it and what the run gives back.
pub open spec fn run_outcome(
    outputs: Map<Seq<char>, Seq<char>>,
    key: Seq<char>,
    captured: Option<Seq<char>>,
    formatted: Seq<char>,
    trim: bool,
) -> (Map<Seq<char>, Seq<char>>, Result<Seq<char>, ProcessCacheError>) {
    if outputs.contains_key(key) {
        (outputs, Ok(shown_output(outputs[key], trim)))
    } else {
        match captured {
            None => (outputs, Err(ProcessCacheError::MissingOutput)),
            Some(_) => (outputs.insert(key, formatted), Ok(shown_output(formatted, trim))),
        }
    }
}

impl ProcessCache {
    /// The outputs cached so far, by cache key.
    pub closed spec fn outputs(&self) -> Map<Seq<char>, Seq<char>> {
        once_map_entries(self.cache)
    }

    /// The program to run.
    pub closed spec fn program(&self) -> Seq<char> {
        self.bin@
    }

    /// The directory commands run in.
    pub closed spec fn workspace_root(&self) -> PathBuf {
        self.root
    }

    /// A cache for `bin` run from `root`, with nothing cached.
    pub fn new(bin: &str, root: PathBuf) -> (cache: Self)
        ensures
            cache.program() == bin@,
            cache.workspace_root() == root,
            cache.outputs() == empty_outputs(),
    {
        ProcessCache { cache: once_map_new(), bin: String::from_str(bin), root }
    }

    /// The command that runs the program with `args` from the workspace root.
    pub fn create_command<A>(&self, args: Vec<A>) -> (command: CommandLine<A>)
        ensures
            command.bin@ == self.program(),
            command.args == args,
            command.cwd == self.workspace_root(),
    {
        CommandLine { bin: self.bin.clone(), args, cwd: clone_path(&self.root) }
    }

    /// Whether the command with this cache key still has to run.
    pub fn needs_run(&self, cache_key: &String) -> (needed: bool)
        ensures
            needed == !self.outputs().contains_key(cache_key@),
    {
        !once_map_contains_key(&self.cache, cache_key)
    }

    /// Completes a run of the command with this cache key. If its output is
    /// cached, that output is given back and `captured` is not used. If not,
    /// the output captured from running it, passed through `format`, is
    /// cached and given back; without a captured output the run fails.
    /// With `trim`, what is given back has no leading or trailing white space
    /// (the cache keeps it whole).
    pub fn run_command_with_formatter<F: FnOnce(String) -> String>(
        &mut self,
        cache_key: String,
        captured: Option<String>,
        trim: bool,
        format: F,
    ) -> (r: Result<&str, ProcessCacheError>)
        requires
            !old(self).outputs().contains_key(cache_key@) ==> (captured matches Some(out)
                ==> format.requires((out,))),
        ensures
            final(self).program() == old(self).program(),
            final(self).workspace_root() == old(self).workspace_root(),
            exists|formatted: String|
                {
                    &&& (!old(self).outputs().contains_key(cache_key@) && captured is Some)
                        ==> format.ensures((captured->0,), formatted)
                    &&& (final(self).outputs(), match r {
                        Ok(out) => Ok(out@),
                        Err(e) => Err(e),
                    }) == run_outcome(
                        old(self).outputs(),
                        cache_key@,
                        match captured {
                            Some(out) => Some(out@),
                            None => None,
                        },
                        formatted@,
                        trim,
                    )
                },
            old(self).outputs().contains_key(cache_key@) ==> {
                &&& final(self).outputs() == old(self).outputs()
                &&& r matches Ok(out) && out@ == if trim {
                    trimmed(old(self).outputs()[cache_key@])
                } else {
                    old(self).outputs()[cache_key@]
                }
            },
            (!old(self).outputs().contains_key(cache_key@) && captured is None) ==> {
                &&& final(self).outputs() == old(self).outputs()
                &&& r matches Err(ProcessCacheError::MissingOutput)
            },
            (!old(self).outputs().contains_key(cache_key@) && captured is Some) ==> exists|
                formatted: String,
            |
                {
                    &&& format.ensures((captured->0,), formatted)
                    &&& final(self).outputs() == old(self).outputs().insert(
                        cache_key@,
                        formatted@,
                    )
                    &&& r matches Ok(out) && out@ == if trim {
                        trimmed(formatted@)
                    } else {
                        formatted@
                    }
                },
    {
        let ghost before = self.outputs();
        if once_map_contains_key(&self.cache, &cache_key) {
            let output = once_map_get(&self.cache, &cache_key);
            let output = match output {
                Some(output) => output,
                None => {
                    assert(false);
                    return Err(ProcessCacheError::MissingOutput);
                },
            };
            let shown = if trim {
                trim_whitespace(output)
            } else {
                output
            };
            let ghost w: String = vstd::pervasive::arbitrary();
            assert(((self.outputs(), Ok::<Seq<char>, ProcessCacheError>(shown@)) == run_outcome(
                before,
                cache_key@,
                match captured {
                    Some(out) => Some(out@),
                    None => None,
                },
                w@,
                trim,
            )));
            return Ok(shown);
        }
        match captured {
            None => {
                let ghost w: String = vstd::pervasive::arbitrary();
                assert((self.outputs(), Err::<Seq<char>, ProcessCacheError>(
                    ProcessCacheError::MissingOutput,
                )) == run_outcome(before, cache_key@, None, w@, trim));
                Err(ProcessCacheError::MissingOutput)
            },
            Some(out) => {
                let formatted = format(out);
                let ghost formatted_view = formatted@;
                let ghost w = formatted;
                let key = cache_key.clone();
                once_map_insert(&mut self.cache, key, formatted);
                let output = match once_map_get(&self.cache, &cache_key) {
                    Some(output) => output,
                    None => {
                        assert(false);
                        return Err(ProcessCacheError::MissingOutput);
                    },
                };
                assert(output@ == formatted_view);
                let shown = if trim {
                    trim_whitespace(output)
                } else {
                    output
                };
                Ok(shown)
            },
        }
    }

    /// Completes a run of the command with this cache key, caching the
    /// captured output as it is.
    pub fn run_command(&mut self, cache_key: String, captured: Option<String>, trim: bool) -> (r:
        Result<&str, ProcessCacheError>)
        ensures
            final(self).program() == old(self).program(),
            final(self).workspace_root() == old(self).workspace_root(),
            (final(self).outputs(), match r {
                Ok(out) => Ok(out@),
                Err(e) => Err(e),
            }) == run_outcome(
                old(self).outputs(),
                cache_key@,
                match captured {
                    Some(out) => Some(out@),
                    None => None,
                },
                match captured {
                    Some(out) => out@,
                    None => Seq::empty(),
                },
                trim,
            ),
            old(self).outputs().contains_key(cache_key@) ==> {
                &&& final(self).outputs() == old(self).outputs()
                &&& r matches Ok(out) && out@ == if trim {
                    trimmed(old(self).outputs()[cache_key@])
                } else {
                    old(self).outputs()[cache_key@]
                }
            },
            (!old(self).outputs().contains_key(cache_key@) && captured is None) ==> {
                &&& final(self).outputs() == old(self).outputs()
                &&& r matches Err(ProcessCacheError::MissingOutput)
            },
            (!old(self).outputs().contains_key(cache_key@) && captured is Some) ==> {
                &&& final(self).outputs() == old(self).outputs().insert(
                    cache_key@,
                    captured->0@,
                )
                &&& r matches Ok(out) && out@ == if trim {
                    trimmed(captured->0@)
                } else {
                    captured->0@
                }
            },
    {
        let same = |output: String| -> (same: String)
            ensures
                same == output,
            { output };
        self.run_command_with_formatter(cache_key, captured, trim, same)
    }
}

/// Once a run has given back an output for a key, any later run with that
/// key gives back the same output and leaves the cache as it was, whatever
/// output is captured or made then: the command runs at most once.
pub proof fn lemma_cached_run_repeats(
    outputs: Map<Seq<char>, Seq<char>>,
    key: Seq<char>,
    first_captured: Option<Seq<char>>,
    first_formatted: Seq<char>,
    later_captured: Option<Seq<char>>,
    later_formatted: Seq<char>,
    trim: bool,
)
    requires
        run_outcome(outputs, key, first_captured, first_formatted, trim).1 is Ok,
    ensures
        ({
            let (after_first, first) = run_outcome(outputs, key, first_captured, first_formatted, trim);
            let (after_later, later) = run_outcome(
                after_first,
                key,
                later_captured,
                later_formatted,
                trim,
            );
            after_later == after_first && later == first
        }),
{
}

/// A run never drops or changes a cached output; it adds at most the
/// output of its own key.
pub proof fn lemma_run_keeps_cached_outputs(
    outputs: Map<Seq<char>, Seq<char>>,
    key: Seq<char>,
    captured: Option<Seq<char>>,
    formatted: Seq<char>,
    trim: bool,
)
    ensures
        ({
            let after = run_outcome(outputs, key, captured, formatted, trim).0;
            &&& forall|k: Seq<char>|
                #[trigger] outputs.contains_key(k) ==> after.contains_key(k) && after[k]
                    == outputs[k]
            &&& forall|k: Seq<char>|
                #[trigger] after.contains_key(k) ==> outputs.contains_key(k) || k == key
        }),
{
}

/// Trimming changes only what a run gives back: the cache ends the same
/// either way, and the trimmed answer is the untrimmed one, trimmed.
pub proof fn lemma_trim_only_shapes_answer(
    outputs: Map<Seq<char>, Seq<char>>,
    key: Seq<char>,
    captured: Option<Seq<char>>,
    formatted: Seq<char>,
)
    ensures
        ({
            let (whole_after, whole) = run_outcome(outputs, key, captured, formatted, false);
            let (trimmed_after, trimmed_answer) = run_outcome(
                outputs,
                key,
                captured,
                formatted,
                true,
            );
            &&& whole_after == trimmed_after
            &&& match (whole, trimmed_answer) {
                (Ok(w), Ok(t)) => t == trimmed(w),
                (Err(a), Err(b)) => a == b,
                _ => false,
            }
        }),
{
}

/// One run of a command through the cache, as plain values: its cache key,
/// the output captured (if the command ran), what the formatter made of it,
/// and whether the answer is trimmed.
pub struct CacheRun {
    pub key: Seq<char>,
    pub captured: Option<Seq<char>>,
    pub formatted: Seq<char>,
    pub trim: bool,
}

/// The cached outputs after `runs`, one after the other, from `outputs`.
pub open spec fn outputs_after(outputs: Map<Seq<char>, Seq<char>>, runs: Seq<CacheRun>) -> Map<
    Seq<char>,
    Seq<char>,
>
    decreases runs.len(),
{
    if runs.len() == 0 {
        outputs
    } else {
        let last = runs.last();
        run_outcome(
            outputs_after(outputs, runs.drop_last()),
            last.key,
            last.captured,
            last.formatted,
            last.trim,
        ).0
    }
}

/// Any runs keep every cached output as it was.
pub proof fn lemma_runs_keep_cached_outputs(
    outputs: Map<Seq<char>, Seq<char>>,
    runs: Seq<CacheRun>,
    key: Seq<char>,
)
    requires
        outputs.contains_key(key),
    ensures
        outputs_after(outputs, runs).contains_key(key),
        outputs_after(outputs, runs)[key] == outputs[key],
    decreases runs.len(),
{
    if runs.len() > 0 {
        lemma_runs_keep_cached_outputs(outputs, runs.drop_last(), key);
    }
}

/// Trimming shapes only the answer, never what is cached: once a run has
/// answered for a key, a later run with that key, after any other runs,
/// answers with the same stored output, trimmed or whole as it asks; in
/// particular a trimmed answer is the later whole answer, trimmed.
pub proof fn lemma_later_runs_answer_from_the_store(
    outputs: Map<Seq<char>, Seq<char>>,
    key: Seq<char>,
    first_captured: Option<Seq<char>>,
    first_formatted: Seq<char>,
    first_trim: bool,
    between: Seq<CacheRun>,
    later_captured: Option<Seq<char>>,
    later_formatted: Seq<char>,
    later_trim: bool,
)
    requires
        run_outcome(outputs, key, first_captured, first_formatted, first_trim).1 is Ok,
    ensures
        ({
            let (after_first, first) = run_outcome(
                outputs,
                key,
                first_captured,
                first_formatted,
                first_trim,
            );
            let before_later = outputs_after(after_first, between);
            let (after_later, later) = run_outcome(
                before_later,
                key,
                later_captured,
                later_formatted,
                later_trim,
            );
            &&& after_first.contains_key(key)
            &&& first == Ok::<Seq<char>, ProcessCacheError>(shown_output(after_first[key], first_trim))
            &&& later == Ok::<Seq<char>, ProcessCacheError>(shown_output(after_first[key], later_trim))
            &&& after_later == before_later
            &&& (first_trim && !later_trim) ==> first->Ok_0 == trimmed(later->Ok_0)
        }),
{
    let after_first = run_outcome(outputs, key, first_captured, first_formatted, first_trim).0;
    lemma_runs_keep_cached_outputs(after_first, between, key);
}

/// A command that has not run yet and whose output was captured always
/// succeeds, whatever it printed (an empty output too): exactly its
/// formatted output is stored under its key, nothing else changes, and that
/// output is the answer, trimmed when asked.
pub proof fn lemma_first_run_stores_its_output(
    outputs: Map<Seq<char>, Seq<char>>,
    key: Seq<char>,
    captured: Seq<char>,
    formatted: Seq<char>,
    trim: bool,
)
    requires
        !outputs.contains_key(key),
    ensures
        run_outcome(outputs, key, Some(captured), formatted, trim) == (
            outputs.insert(key, formatted),
            Ok::<Seq<char>, ProcessCacheError>(
                if trim {
                    trim_end(trim_start(formatted))
                } else {
                    formatted
                },
            ),
        ),
        run_outcome(outputs, key, Some(captured), formatted, trim).0.contains_key(key),
        run_outcome(outputs, key, Some(captured), formatted, trim).0[key] == formatted,
{
}

/// A command whose output is cached does not run again: the answer is the
/// stored output (trimmed when asked) and the cache is left as it was,
/// whatever is captured or made this time.
pub proof fn lemma_cached_run_reads_the_store(
    outputs: Map<Seq<char>, Seq<char>>,
    key: Seq<char>,
    captured: Option<Seq<char>>,
    formatted: Seq<char>,
    trim: bool,
)
    requires
        outputs.contains_key(key),
    ensures
        run_outcome(outputs, key, captured, formatted, trim) == (
            outputs,
            Ok::<Seq<char>, ProcessCacheError>(
                if trim {
                    trim_end(trim_start(outputs[key]))
                } else {
                    outputs[key]
                },
            ),
        ),
{
}

/// Only a run of a command that never ran, with nothing captured, fails,
/// and it changes nothing.
pub proof fn lemma_run_fails_only_without_output(
    outputs: Map<Seq<char>, Seq<char>>,
    key: Seq<char>,
    captured: Option<Seq<char>>,
    formatted: Seq<char>,
    trim: bool,
)
    ensures
        run_outcome(outputs, key, captured, formatted, trim).1 is Err <==> (!outputs.contains_key(
            key,
        ) && captured is None),
        run_outcome(outputs, key, captured, formatted, trim).1 is Err ==> run_outcome(
            outputs,
            key,
            captured,
            formatted,
            trim,
        ).0 == outputs,
{
}

} // verus!
