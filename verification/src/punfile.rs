//! Reading a Punfile out of its YAML document.
//!
//! A Punfile has a `configuration` mapping (`prefix`, `local`, `output`,
//! `s3Bucket`) and a `dependencies` sequence. Each dependency is a mapping
//! from its name to a sequence of frameworks, each with a `name` and an
//! optional `version`.
pub mod data;

use vstd::prelude::*;
use vstd::string::*;

use crate::punfile::data::{
    lemma_models_add, lemma_models_push, models, Configuration, ConfigurationModel, PunFile,
    PunFileModel, Repository, RepositoryModel,
};
use crate::text::opt_view;
use crate::yaml::{lookup, parse_yaml, yaml_document, YamlValue};

verus! {

/// Why a Punfile document cannot be read.
#[derive(Debug, PartialEq, Eq)]
pub enum PunfileError {
    /// The text is not a YAML document; the parser's error, as text.
    InvalidYaml(String),
    /// There is no `configuration` key.
    MissingConfiguration,
    /// `configuration` has no `local` key.
    MissingLocal,
    /// `configuration` has no `output` key.
    MissingOutput,
    /// `configuration` has no `s3Bucket` key.
    MissingS3Bucket,
    /// `s3Bucket` is not a string.
    S3BucketNotAString,
    /// There is no `dependencies` key.
    MissingDependencies,
    /// `dependencies` is not a sequence.
    DependenciesNotASequence,
    /// An item of `dependencies` is not a mapping.
    DependencyNotAMapping,
    /// A dependency's name is not a string.
    DependencyNameNotAString,
    /// What a dependency's name maps to is not a sequence.
    FrameworksNotASequence,
    /// A framework entry is not a mapping.
    FrameworkNotAMapping,
    /// A framework entry has no `name`.
    MissingFrameworkName,
    /// A framework's `name` is not a string.
    FrameworkNameNotAString,
    /// A framework's `version` is not a string.
    FrameworkVersionNotAString,
}

/// The message that a Punfile error is reported with: the missing key for a
/// missing section or location, the required shape of `dependencies`, and
/// the message of a failed unwrap for any other malformed entry.
pub open spec fn error_message_spec(e: PunfileError) -> Seq<char> {
    match e {
        PunfileError::InvalidYaml(t) => "called `Result::unwrap()` on an `Err` value: "@ + t@,
        PunfileError::MissingConfiguration => "Unable to read key `configuration` in Punfile."@,
        PunfileError::MissingLocal => "Unable to read key `local` in Punfile."@,
        PunfileError::MissingOutput => "Unable to read key `output` in Punfile."@,
        PunfileError::MissingS3Bucket => "Unable to read key `s3Bucket` in Punfile."@,
        PunfileError::MissingDependencies => "Unable to read key `dependencies` in Punfile."@,
        PunfileError::DependenciesNotASequence => "Key `dependencies` in Punfile must be an array"@,
        _ => "called `Option::unwrap()` on a `None` value"@,
    }
}

impl PunfileError {
    /// The message that this error is reported with.
    pub fn message(&self) -> (r: String)
        ensures
            r@ == error_message_spec(*self),
    {
        match self {
            PunfileError::InvalidYaml(t) => {
                let mut r = String::from_str("called `Result::unwrap()` on an `Err` value: ");
                r.append(t.as_str());
                r
            },
            PunfileError::MissingConfiguration => String::from_str(
                "Unable to read key `configuration` in Punfile.",
            ),
            PunfileError::MissingLocal => String::from_str("Unable to read key `local` in Punfile."),
            PunfileError::MissingOutput => String::from_str(
                "Unable to read key `output` in Punfile.",
            ),
            PunfileError::MissingS3Bucket => String::from_str(
                "Unable to read key `s3Bucket` in Punfile.",
            ),
            PunfileError::MissingDependencies => String::from_str(
                "Unable to read key `dependencies` in Punfile.",
            ),
            PunfileError::DependenciesNotASequence => String::from_str(
                "Key `dependencies` in Punfile must be an array",
            ),
            _ => String::from_str("called `Option::unwrap()` on a `None` value"),
        }
    }
}

/// The prefix that the Punfile itself sets: `prefix` when it is a string, else `output`.
pub open spec fn configured_prefix(configuration: YamlValue) -> Seq<char> {
    match configuration.get_spec("prefix"@) {
        Some(v) => match v.str_spec() {
            Some(s) => s,
            None => "output"@,
        },
        None => "output"@,
    }
}

/// The cache prefix of a run: the one given on the command line, else the Punfile's.
pub open spec fn cache_prefix_spec(configuration: YamlValue, cli_prefix: Option<Seq<char>>) -> Seq<
    char,
> {
    match cli_prefix {
        Some(p) => p,
        None => configured_prefix(configuration),
    }
}

/// The text of a value that must be present, or `default` when it is not a string.
pub open spec fn text_or(v: YamlValue, default: Seq<char>) -> Seq<char> {
    match v.str_spec() {
        Some(s) => s,
        None => default,
    }
}

/// The configuration that a Punfile document yields, or why it yields none.
pub open spec fn configuration_spec(doc: YamlValue, cli_prefix: Option<Seq<char>>) -> Result<
    ConfigurationModel,
    PunfileError,
> {
    match doc.get_spec("configuration"@) {
        None => Err(PunfileError::MissingConfiguration),
        Some(c) => match c.get_spec("local"@) {
            None => Err(PunfileError::MissingLocal),
            Some(local) => match c.get_spec("output"@) {
                None => Err(PunfileError::MissingOutput),
                Some(output) => match c.get_spec("s3Bucket"@) {
                    None => Err(PunfileError::MissingS3Bucket),
                    Some(bucket) => match bucket.str_spec() {
                        None => Err(PunfileError::S3BucketNotAString),
                        Some(b) => Ok(
                            ConfigurationModel {
                                prefix: cache_prefix_spec(c, cli_prefix),
                                local: text_or(local, "~/Library/Caches/Punic"@),
                                output: text_or(output, "Carthage/Build"@),
                                s3_bucket: b,
                            },
                        ),
                    },
                },
            },
        },
    }
}

/// The framework that one entry of a dependency's list describes.
pub open spec fn framework_spec(repo_name: Seq<char>, item: YamlValue) -> Result<
    RepositoryModel,
    PunfileError,
> {
    match item {
        YamlValue::Mapping(entries) => match lookup(entries@, "name"@) {
            None => Err(PunfileError::MissingFrameworkName),
            Some(n) => match n.str_spec() {
                None => Err(PunfileError::FrameworkNameNotAString),
                Some(name) => match lookup(entries@, "version"@) {
                    None => Ok(RepositoryModel { repo_name, name, version: ""@ }),
                    Some(v) => match v.str_spec() {
                        None => Err(PunfileError::FrameworkVersionNotAString),
                        Some(version) => Ok(RepositoryModel { repo_name, name, version }),
                    },
                },
            },
        },
        _ => Err(PunfileError::FrameworkNotAMapping),
    }
}

/// The frameworks of a dependency's list, in order; the first bad entry decides the error.
pub open spec fn framework_list_spec(repo_name: Seq<char>, items: Seq<YamlValue>) -> Result<
    Seq<RepositoryModel>,
    PunfileError,
>
    decreases items.len(),
{
    if items.len() == 0 {
        Ok(Seq::empty())
    } else {
        match framework_list_spec(repo_name, items.drop_last()) {
            Err(e) => Err(e),
            Ok(acc) => match framework_spec(repo_name, items.last()) {
                Err(e) => Err(e),
                Ok(m) => Ok(acc.push(m)),
            },
        }
    }
}

/// The frameworks of one `name: [frameworks]` entry of a dependency.
pub open spec fn dependency_entry_spec(key: YamlValue, value: YamlValue) -> Result<
    Seq<RepositoryModel>,
    PunfileError,
> {
    match key.str_spec() {
        None => Err(PunfileError::DependencyNameNotAString),
        Some(repo_name) => match value {
            YamlValue::Sequence(items) => framework_list_spec(repo_name, items@),
            _ => Err(PunfileError::FrameworksNotASequence),
        },
    }
}

/// The frameworks of all entries of one dependency mapping, in document order.
pub open spec fn dependency_spec(entries: Seq<(YamlValue, YamlValue)>) -> Result<
    Seq<RepositoryModel>,
    PunfileError,
>
    decreases entries.len(),
{
    if entries.len() == 0 {
        Ok(Seq::empty())
    } else {
        match dependency_spec(entries.drop_last()) {
            Err(e) => Err(e),
            Ok(acc) => match dependency_entry_spec(entries.last().0, entries.last().1) {
                Err(e) => Err(e),
                Ok(ms) => Ok(acc + ms),
            },
        }
    }
}

/// The frameworks of a list of dependencies, in document order.
pub open spec fn dependency_list_spec(deps: Seq<YamlValue>) -> Result<
    Seq<RepositoryModel>,
    PunfileError,
>
    decreases deps.len(),
{
    if deps.len() == 0 {
        Ok(Seq::empty())
    } else {
        match dependency_list_spec(deps.drop_last()) {
            Err(e) => Err(e),
            Ok(acc) => match deps.last() {
                YamlValue::Mapping(entries) => match dependency_spec(entries@) {
                    Err(e) => Err(e),
                    Ok(ms) => Ok(acc + ms),
                },
                _ => Err(PunfileError::DependencyNotAMapping),
            },
        }
    }
}

/// The frameworks that a Punfile document names, or why it names none.
pub open spec fn dependencies_spec(doc: YamlValue) -> Result<Seq<RepositoryModel>, PunfileError> {
    match doc.get_spec("dependencies"@) {
        None => Err(PunfileError::MissingDependencies),
        Some(YamlValue::Sequence(deps)) => dependency_list_spec(deps@),
        Some(_) => Err(PunfileError::DependenciesNotASequence),
    }
}

/// The Punfile that a document yields: the configuration is read first, then the dependencies.
pub open spec fn pun_file_spec(doc: YamlValue, cli_prefix: Option<Seq<char>>) -> Result<
    PunFileModel,
    PunfileError,
> {
    match configuration_spec(doc, cli_prefix) {
        Err(e) => Err(e),
        Ok(c) => match dependencies_spec(doc) {
            Err(e) => Err(e),
            Ok(fs) => Ok(PunFileModel { configuration: c, frameworks: fs }),
        },
    }
}

/// The cache prefix of a run: `cli_prefix` when the command line gives one
/// (`--cache-prefix` of `download` or `upload`), else the Punfile's `prefix`
/// when it is a string, else `output`.
pub fn get_cache_prefix(configuration: &YamlValue, cli_prefix: Option<&str>) -> (r: String)
    ensures
        r@ == cache_prefix_spec(*configuration, opt_view(cli_prefix)),
{
    match cli_prefix {
        Some(p) => p.to_owned(),
        None => match configuration.get("prefix") {
            Some(v) => match v.as_str() {
                Some(s) => s.to_owned(),
                None => String::from_str("output"),
            },
            None => String::from_str("output"),
        },
    }
}

/// The text of a present value, or `default` when it is not a string.
fn text_or_default(v: &YamlValue, default: &str) -> (r: String)
    ensures
        r@ == text_or(*v, default@),
{
    match v.as_str() {
        Some(s) => s.to_owned(),
        None => default.to_owned(),
    }
}

/// Reads the `configuration` section, with the cache prefix of the run.
pub fn parse_configuration(doc: &YamlValue, cli_prefix: Option<&str>) -> (r: Result<
    Configuration,
    PunfileError,
>)
    ensures
        match r {
            Ok(c) => configuration_spec(*doc, opt_view(cli_prefix)) == Ok::<
                ConfigurationModel,
                PunfileError,
            >(c@),
            Err(e) => configuration_spec(*doc, opt_view(cli_prefix)) == Err::<
                ConfigurationModel,
                PunfileError,
            >(e),
        },
{
    let c = match doc.get("configuration") {
        Some(c) => c,
        None => return Err(PunfileError::MissingConfiguration),
    };
    let prefix = get_cache_prefix(c, cli_prefix);
    let local = match c.get("local") {
        Some(v) => text_or_default(v, "~/Library/Caches/Punic"),
        None => return Err(PunfileError::MissingLocal),
    };
    let output = match c.get("output") {
        Some(v) => text_or_default(v, "Carthage/Build"),
        None => return Err(PunfileError::MissingOutput),
    };
    let s3_bucket = match c.get("s3Bucket") {
        Some(v) => match v.as_str() {
            Some(s) => s.to_owned(),
            None => return Err(PunfileError::S3BucketNotAString),
        },
        None => return Err(PunfileError::MissingS3Bucket),
    };
    Ok(Configuration { prefix, local, output, s3_bucket })
}

/// Reads one framework entry of a dependency.
fn parse_framework(repo_name: &str, item: &YamlValue) -> (r: Result<Repository, PunfileError>)
    ensures
        match r {
            Ok(m) => framework_spec(repo_name@, *item) == Ok::<RepositoryModel, PunfileError>(m@),
            Err(e) => framework_spec(repo_name@, *item) == Err::<RepositoryModel, PunfileError>(e),
        },
{
    match item {
        YamlValue::Mapping(_) => {
            let name = item.get("name");
            let version = item.get("version");
            let name = match name {
                Some(n) => match n.as_str() {
                    Some(s) => s.to_owned(),
                    None => return Err(PunfileError::FrameworkNameNotAString),
                },
                None => return Err(PunfileError::MissingFrameworkName),
            };
            let version = match version {
                Some(v) => match v.as_str() {
                    Some(s) => s.to_owned(),
                    None => return Err(PunfileError::FrameworkVersionNotAString),
                },
                None => {
                    let empty = String::new();
                    proof {
                        reveal_strlit("");
                        assert(empty@ =~= ""@);
                    }
                    empty
                },
            };
            Ok(Repository { repo_name: repo_name.to_owned(), name, version })
        },
        _ => Err(PunfileError::FrameworkNotAMapping),
    }
}

/// Reads the frameworks listed under one dependency name.
fn parse_framework_list(repo_name: &str, items: &Vec<YamlValue>) -> (r: Result<
    Vec<Repository>,
    PunfileError,
>)
    ensures
        match r {
            Ok(v) => framework_list_spec(repo_name@, items@) == Ok::<
                Seq<RepositoryModel>,
                PunfileError,
            >(models(v@)),
            Err(e) => framework_list_spec(repo_name@, items@) == Err::<
                Seq<RepositoryModel>,
                PunfileError,
            >(e),
        },
{
    let mut out: Vec<Repository> = Vec::new();
    let n = items.len();
    let mut i: usize = 0;
    proof {
        assert(items@.take(0) =~= Seq::<YamlValue>::empty());
        assert(models(out@) =~= Seq::<RepositoryModel>::empty());
    }
    while i < n
        invariant
            n == items@.len(),
            i <= n,
            framework_list_spec(repo_name@, items@.take(i as int)) == Ok::<
                Seq<RepositoryModel>,
                PunfileError,
            >(models(out@)),
        decreases n - i,
    {
        proof {
            assert(items@.take(i + 1).drop_last() =~= items@.take(i as int));
        }
        let m = match parse_framework(repo_name, &items[i]) {
            Ok(m) => m,
            Err(e) => {
                proof {
                    lemma_list_error_persists(repo_name@, items@, (i + 1) as int);
                }
                return Err(e);
            },
        };
        proof {
            lemma_models_push(out@, m);
        }
        out.push(m);
        i = i + 1;
    }
    proof {
        assert(items@.take(n as int) =~= items@);
    }
    Ok(out)
}

proof fn lemma_list_error_persists(repo_name: Seq<char>, items: Seq<YamlValue>, k: int)
    requires
        0 <= k <= items.len(),
        framework_list_spec(repo_name, items.take(k)) is Err,
    ensures
        framework_list_spec(repo_name, items) == framework_list_spec(repo_name, items.take(k)),
    decreases items.len() - k,
{
    if k < items.len() {
        assert(items.take(k + 1).drop_last() =~= items.take(k));
        lemma_list_error_persists(repo_name, items, k + 1);
    } else {
        assert(items.take(k) =~= items);
    }
}

proof fn lemma_dependency_error_persists(entries: Seq<(YamlValue, YamlValue)>, k: int)
    requires
        0 <= k <= entries.len(),
        dependency_spec(entries.take(k)) is Err,
    ensures
        dependency_spec(entries) == dependency_spec(entries.take(k)),
    decreases entries.len() - k,
{
    if k < entries.len() {
        assert(entries.take(k + 1).drop_last() =~= entries.take(k));
        lemma_dependency_error_persists(entries, k + 1);
    } else {
        assert(entries.take(k) =~= entries);
    }
}

proof fn lemma_dependency_list_error_persists(deps: Seq<YamlValue>, k: int)
    requires
        0 <= k <= deps.len(),
        dependency_list_spec(deps.take(k)) is Err,
    ensures
        dependency_list_spec(deps) == dependency_list_spec(deps.take(k)),
    decreases deps.len() - k,
{
    if k < deps.len() {
        assert(deps.take(k + 1).drop_last() =~= deps.take(k));
        lemma_dependency_list_error_persists(deps, k + 1);
    } else {
        assert(deps.take(k) =~= deps);
    }
}

/// Reads the frameworks of one dependency mapping.
fn parse_dependency(entries: &Vec<(YamlValue, YamlValue)>) -> (r: Result<
    Vec<Repository>,
    PunfileError,
>)
    ensures
        match r {
            Ok(v) => dependency_spec(entries@) == Ok::<Seq<RepositoryModel>, PunfileError>(
                models(v@),
            ),
            Err(e) => dependency_spec(entries@) == Err::<Seq<RepositoryModel>, PunfileError>(e),
        },
{
    let mut out: Vec<Repository> = Vec::new();
    let n = entries.len();
    let mut i: usize = 0;
    proof {
        assert(entries@.take(0) =~= Seq::<(YamlValue, YamlValue)>::empty());
        assert(models(out@) =~= Seq::<RepositoryModel>::empty());
    }
    while i < n
        invariant
            n == entries@.len(),
            i <= n,
            dependency_spec(entries@.take(i as int)) == Ok::<Seq<RepositoryModel>, PunfileError>(
                models(out@),
            ),
        decreases n - i,
    {
        proof {
            assert(entries@.take(i + 1).drop_last() =~= entries@.take(i as int));
        }
        let entry = &entries[i];
        let step: Result<Vec<Repository>, PunfileError> = match entry.0.as_str() {
            None => Err(PunfileError::DependencyNameNotAString),
            Some(repo_name) => match &entry.1 {
                YamlValue::Sequence(items) => parse_framework_list(repo_name, items),
                _ => Err(PunfileError::FrameworksNotASequence),
            },
        };
        match step {
            Ok(mut ms) => {
                proof {
                    lemma_models_add(out@, ms@);
                }
                out.append(&mut ms);
            },
            Err(e) => {
                proof {
                    lemma_dependency_error_persists(entries@, (i + 1) as int);
                }
                return Err(e);
            },
        }
        i = i + 1;
    }
    proof {
        assert(entries@.take(n as int) =~= entries@);
    }
    Ok(out)
}

/// Reads the `dependencies` section: every framework of every dependency, in document order.
pub fn parse_dependencies(doc: &YamlValue) -> (r: Result<Vec<Repository>, PunfileError>)
    ensures
        match r {
            Ok(v) => dependencies_spec(*doc) == Ok::<Seq<RepositoryModel>, PunfileError>(
                models(v@),
            ),
            Err(e) => dependencies_spec(*doc) == Err::<Seq<RepositoryModel>, PunfileError>(e),
        },
{
    let deps = match doc.get("dependencies") {
        Some(YamlValue::Sequence(deps)) => deps,
        Some(_) => return Err(PunfileError::DependenciesNotASequence),
        None => return Err(PunfileError::MissingDependencies),
    };
    assert(doc.get_spec("dependencies"@) == Some(YamlValue::Sequence(*deps)));
    let mut out: Vec<Repository> = Vec::new();
    let n = deps.len();
    let mut i: usize = 0;
    proof {
        assert(deps@.take(0) =~= Seq::<YamlValue>::empty());
        assert(models(out@) =~= Seq::<RepositoryModel>::empty());
    }
    while i < n
        invariant
            n == deps@.len(),
            i <= n,
            doc.get_spec("dependencies"@) == Some(YamlValue::Sequence(*deps)),
            dependency_list_spec(deps@.take(i as int)) == Ok::<Seq<RepositoryModel>, PunfileError>(
                models(out@),
            ),
        decreases n - i,
    {
        proof {
            assert(deps@.take(i + 1).drop_last() =~= deps@.take(i as int));
        }
        let step = match &deps[i] {
            YamlValue::Mapping(entries) => parse_dependency(entries),
            _ => Err(PunfileError::DependencyNotAMapping),
        };
        match step {
            Ok(mut ms) => {
                proof {
                    lemma_models_add(out@, ms@);
                }
                out.append(&mut ms);
            },
            Err(e) => {
                proof {
                    lemma_dependency_list_error_persists(deps@, (i + 1) as int);
                }
                return Err(e);
            },
        }
        i = i + 1;
    }
    proof {
        assert(deps@.take(n as int) =~= deps@);
    }
    Ok(out)
}

/// Reads a Punfile document: its configuration, with the cache prefix of the
/// run, then the frameworks of its dependencies.
pub fn parse_pun_file(doc: &YamlValue, cli_prefix: Option<&str>) -> (r: Result<
    PunFile,
    PunfileError,
>)
    ensures
        match r {
            Ok(p) => pun_file_spec(*doc, opt_view(cli_prefix)) == Ok::<PunFileModel, PunfileError>(
                p@,
            ),
            Err(e) => pun_file_spec(*doc, opt_view(cli_prefix)) == Err::<PunFileModel, PunfileError>(
                e,
            ),
        },
{
    let configuration = parse_configuration(doc, cli_prefix)?;
    let frameworks = parse_dependencies(doc)?;
    Ok(PunFile { configuration, frameworks })
}

/// The YAML document of a Punfile's text, or `InvalidYaml` with the parser's error.
pub fn read_document(text: &str) -> (r: Result<YamlValue, PunfileError>)
    ensures
        match yaml_document(text@) {
            Err(t) => match r {
                Err(PunfileError::InvalidYaml(e)) => e@ == t,
                _ => false,
            },
            Ok(doc) => r == Ok::<YamlValue, PunfileError>(doc),
        },
{
    match parse_yaml(text) {
        Ok(doc) => Ok(doc),
        Err(e) => Err(PunfileError::InvalidYaml(e)),
    }
}

/// Reads a Punfile from its text: `InvalidYaml` with the parser's error when
/// the text is not YAML, else what `parse_pun_file` reads from the document.
pub fn read_pun_file(text: &str, cli_prefix: Option<&str>) -> (r: Result<PunFile, PunfileError>)
    ensures
        match yaml_document(text@) {
            Err(t) => match r {
                Err(PunfileError::InvalidYaml(e)) => e@ == t,
                _ => false,
            },
            Ok(doc) => match r {
                Ok(p) => pun_file_spec(doc, opt_view(cli_prefix)) == Ok::<
                    PunFileModel,
                    PunfileError,
                >(p@),
                Err(e) => pun_file_spec(doc, opt_view(cli_prefix)) == Err::<
                    PunFileModel,
                    PunfileError,
                >(e),
            },
        },
{
    let doc = read_document(text)?;
    parse_pun_file(&doc, cli_prefix)
}

/// Reading the configuration succeeds exactly when the document has a
/// `configuration` with `local`, `output` and `s3Bucket`, and the bucket is a
/// string. Each missing key, or a bucket that is not a string, gives its own error.
pub proof fn lemma_configuration_errors(doc: YamlValue, cli_prefix: Option<Seq<char>>)
    ensures
        doc.get_spec("configuration"@) is None ==> configuration_spec(doc, cli_prefix) == Err::<
            ConfigurationModel,
            PunfileError,
        >(PunfileError::MissingConfiguration),
        doc.get_spec("configuration"@) matches Some(c) ==> {
            &&& c.get_spec("local"@) is None ==> configuration_spec(doc, cli_prefix) == Err::<
                ConfigurationModel,
                PunfileError,
            >(PunfileError::MissingLocal)
            &&& c.get_spec("local"@) is Some && c.get_spec("output"@) is None ==> configuration_spec(
                doc,
                cli_prefix,
            ) == Err::<ConfigurationModel, PunfileError>(PunfileError::MissingOutput)
            &&& c.get_spec("local"@) is Some && c.get_spec("output"@) is Some && c.get_spec(
                "s3Bucket"@,
            ) is None ==> configuration_spec(doc, cli_prefix) == Err::<
                ConfigurationModel,
                PunfileError,
            >(PunfileError::MissingS3Bucket)
            &&& (c.get_spec("local"@) is Some && c.get_spec("output"@) is Some && (c.get_spec(
                "s3Bucket"@,
            ) matches Some(b) && b.str_spec() is None)) ==> configuration_spec(doc, cli_prefix)
                == Err::<ConfigurationModel, PunfileError>(PunfileError::S3BucketNotAString)
        },
{
}

/// The configuration that is read keeps what the Punfile says: a `local` or
/// `output` that is a string is kept exactly, and only one that is not a
/// string is replaced by its default (`~/Library/Caches/Punic`,
/// `Carthage/Build`); the bucket is the `s3Bucket` string; the prefix is the
/// command-line one if given, else a string `prefix`, else `output`.
pub proof fn lemma_configuration_keeps_values(
    doc: YamlValue,
    cli_prefix: Option<Seq<char>>,
    c: YamlValue,
    local: YamlValue,
    output: YamlValue,
    bucket: Seq<char>,
)
    requires
        doc.get_spec("configuration"@) == Some(c),
        c.get_spec("local"@) == Some(local),
        c.get_spec("output"@) == Some(output),
        c.get_spec("s3Bucket"@) matches Some(b) && b.str_spec() == Some(bucket),
    ensures
        configuration_spec(doc, cli_prefix) matches Ok(m) && {
            &&& m.s3_bucket == bucket
            &&& local.str_spec() matches Some(l) ==> m.local == l
            &&& local.str_spec() is None ==> m.local == "~/Library/Caches/Punic"@
            &&& output.str_spec() matches Some(o) ==> m.output == o
            &&& output.str_spec() is None ==> m.output == "Carthage/Build"@
            &&& cli_prefix matches Some(p) ==> m.prefix == p
            &&& cli_prefix is None ==> m.prefix == match c.get_spec("prefix"@) {
                Some(v) => match v.str_spec() {
                    Some(p) => p,
                    None => "output"@,
                },
                None => "output"@,
            }
        },
{
}

/// A framework entry that is a mapping with a string `name` gives a framework
/// of the enclosing dependency with exactly that name, and with the `version`
/// string when there is one, an empty version when there is none.
pub proof fn lemma_framework_entry_keeps_values(
    repo_name: Seq<char>,
    item: YamlValue,
    name: Seq<char>,
)
    requires
        item is Mapping,
        item.get_spec("name"@) matches Some(n) && n.str_spec() == Some(name),
    ensures
        match item.get_spec("version"@) {
            None => match framework_spec(repo_name, item) {
                Ok(m) => m.repo_name == repo_name && m.name == name && m.version.len() == 0,
                Err(_) => false,
            },
            Some(v) => match v.str_spec() {
                Some(version) => match framework_spec(repo_name, item) {
                    Ok(m) => m.repo_name == repo_name && m.name == name && m.version == version,
                    Err(_) => false,
                },
                None => framework_spec(repo_name, item) == Err::<RepositoryModel, PunfileError>(
                    PunfileError::FrameworkVersionNotAString,
                ),
            },
        },
{
    reveal_strlit("");
}

/// The frameworks of a dependency's list grow one entry at a time: an empty
/// list gives none; one more good entry appends its framework; the first bad
/// entry's error is the list's error, and a later entry cannot hide it.
pub proof fn lemma_framework_list_step(repo_name: Seq<char>, items: Seq<YamlValue>, item: YamlValue)
    ensures
        framework_list_spec(repo_name, Seq::empty()) == Ok::<Seq<RepositoryModel>, PunfileError>(
            Seq::empty(),
        ),
        framework_list_spec(repo_name, items.push(item)) == match framework_list_spec(
            repo_name,
            items,
        ) {
            Err(e) => Err(e),
            Ok(acc) => match framework_spec(repo_name, item) {
                Err(e) => Err(e),
                Ok(m) => Ok(acc.push(m)),
            },
        },
{
    assert(items.push(item).drop_last() =~= items);
}

/// The frameworks of a dependency mapping, one entry at a time: every entry's
/// frameworks follow those of the entries before it, in document order.
pub proof fn lemma_dependency_step(
    entries: Seq<(YamlValue, YamlValue)>,
    key: YamlValue,
    value: YamlValue,
)
    ensures
        dependency_spec(Seq::empty()) == Ok::<Seq<RepositoryModel>, PunfileError>(Seq::empty()),
        dependency_spec(entries.push((key, value))) == match dependency_spec(entries) {
            Err(e) => Err(e),
            Ok(acc) => match key.str_spec() {
                None => Err(PunfileError::DependencyNameNotAString),
                Some(repo_name) => match value {
                    YamlValue::Sequence(items) => match framework_list_spec(repo_name, items@) {
                        Err(e) => Err(e),
                        Ok(ms) => Ok(acc + ms),
                    },
                    _ => Err(PunfileError::FrameworksNotASequence),
                },
            },
        },
{
    assert(entries.push((key, value)).drop_last() =~= entries);
}

/// The frameworks of the `dependencies` list, one dependency at a time: each
/// dependency must be a mapping, and its frameworks follow those before it.
pub proof fn lemma_dependency_list_step(deps: Seq<YamlValue>, dep: YamlValue)
    ensures
        dependency_list_spec(Seq::empty()) == Ok::<Seq<RepositoryModel>, PunfileError>(
            Seq::empty(),
        ),
        dependency_list_spec(deps.push(dep)) == match dependency_list_spec(deps) {
            Err(e) => Err(e),
            Ok(acc) => match dep {
                YamlValue::Mapping(entries) => match dependency_spec(entries@) {
                    Err(e) => Err(e),
                    Ok(ms) => Ok(acc + ms),
                },
                _ => Err(PunfileError::DependencyNotAMapping),
            },
        },
{
    assert(deps.push(dep).drop_last() =~= deps);
}

/// The `dependencies` key must be there and be a sequence; then the frameworks
/// are those of its dependencies. A whole Punfile is read configuration first:
/// a configuration error wins over a dependencies error.
pub proof fn lemma_dependencies_and_pun_file(doc: YamlValue, cli_prefix: Option<Seq<char>>)
    ensures
        doc.get_spec("dependencies"@) is None ==> dependencies_spec(doc) == Err::<
            Seq<RepositoryModel>,
            PunfileError,
        >(PunfileError::MissingDependencies),
        match doc.get_spec("dependencies"@) {
            Some(YamlValue::Sequence(deps)) => dependencies_spec(doc) == dependency_list_spec(deps@),
            Some(_) => dependencies_spec(doc) == Err::<Seq<RepositoryModel>, PunfileError>(
                PunfileError::DependenciesNotASequence,
            ),
            None => true,
        },
        configuration_spec(doc, cli_prefix) matches Err(e) ==> pun_file_spec(doc, cli_prefix)
            == Err::<PunFileModel, PunfileError>(e),
        configuration_spec(doc, cli_prefix) matches Ok(c) ==> match dependencies_spec(doc) {
            Err(e) => pun_file_spec(doc, cli_prefix) == Err::<PunFileModel, PunfileError>(e),
            Ok(fs) => pun_file_spec(doc, cli_prefix) matches Ok(p) && p.configuration == c
                && p.frameworks == fs,
        },
{
}

/// A cache prefix given on the command line is the one used, whatever the Punfile says.
pub proof fn lemma_cli_prefix_wins(configuration: YamlValue, cli_prefix: Seq<char>)
    ensures
        cache_prefix_spec(configuration, Some(cli_prefix)) == cli_prefix,
{
}

/// Without a prefix on the command line, the Punfile's string `prefix` is used,
/// and the prefix defaults to `output` when the Punfile has no string `prefix`.
pub proof fn lemma_prefix_defaults_to_output(configuration: YamlValue)
    ensures
        match configuration.get_spec("prefix"@) {
            Some(v) => match v.str_spec() {
                Some(p) => cache_prefix_spec(configuration, None) == p,
                None => cache_prefix_spec(configuration, None) == "output"@,
            },
            None => cache_prefix_spec(configuration, None) == "output"@,
        },
{
}

/// The line that lists a framework: `group: <dependency> , artifact: <name>, version: <version>`.
pub open spec fn dependency_line_spec(r: RepositoryModel) -> Seq<char> {
    "group: "@ + r.repo_name + " , artifact: "@ + r.name + ", version: "@ + r.version
}

/// The line that `print_pun_deps` prints for a framework.
pub fn dependency_line(r: &Repository) -> (s: String)
    ensures
        s@ == dependency_line_spec(r@),
{
    let mut s = String::from_str("group: ");
    s.append(r.repo_name.as_str());
    s.append(" , artifact: ");
    s.append(r.name.as_str());
    s.append(", version: ");
    s.append(r.version.as_str());
    s
}

/// The lines of a Punfile's frameworks, one per framework, in order.
pub fn dependency_lines(punfile: &PunFile) -> (lines: Vec<String>)
    ensures
        lines@.len() == punfile.frameworks@.len(),
        forall|i: int|
            0 <= i < lines@.len() ==> #[trigger] lines@[i]@ == dependency_line_spec(
                punfile.frameworks@[i]@,
            ),
{
    let mut lines: Vec<String> = Vec::new();
    let n = punfile.frameworks.len();
    let mut i: usize = 0;
    while i < n
        invariant
            n == punfile.frameworks@.len(),
            i <= n,
            lines@.len() == i,
            forall|k: int|
                0 <= k < i ==> #[trigger] lines@[k]@ == dependency_line_spec(
                    punfile.frameworks@[k]@,
                ),
        decreases n - i,
    {
        lines.push(dependency_line(&punfile.frameworks[i]));
        i = i + 1;
    }
    lines
}

} // verus!
