//! The resolver: it settles the kind of each declaration of a source
//! module and lays out what has to be fetched for it.
//!
//! The kind of a token is the first of these that fits:
//!
//! 1. one of the builtin namespaces `std`, `math`, `io`;
//! 2. the name of a library of the registry;
//! 3. `local:` followed by a path;
//! 4. a URL that ends in `.tar.gz`.
//!
//! An empty token and a token that fits none of them are errors, and the
//! first error ends the resolution of the file.

use crate::declaration::{
    count_declarations, declarations_in, lemma_declarations_follow_lines, scan_declarations,
    DeclarationView, DependencyDeclaration,
};
use crate::dependency::{DependencyView, ErrorView, ResolutionError, ResolvedDependency};
use crate::registry::{
    law_last_entry_of_a_name_stays, lemma_registry_of_len, manifest_registry, names_unique,
    registry_of, EntryView, Registry, RegistryEntry,
};
use crate::resolution::{
    law_resolution_follows_plan, ReplyView, RequestView, Resolution, ResolutionView,
};
use crate::sync::{SyncView, Synchronizer};
use crate::text::{ends_with, lines, matches_at, slice_to_string, starts_with, to_chars};
use vstd::prelude::*;

verus! {

/// Whether `token` names a builtin namespace.
pub open spec fn is_builtin(token: Seq<char>) -> bool {
    token == "std"@ || token == "math"@ || token == "io"@
}

/// What a token begins with when it refers to a local file.
pub open spec fn local_prefix() -> Seq<char> {
    "local:"@
}

/// What a token ends in when it refers to a remote archive.
pub open spec fn archive_suffix() -> Seq<char> {
    ".tar.gz"@
}

/// The kind of a token that is not empty, if it has one.
pub open spec fn kind_of(registry: Map<Seq<char>, EntryView>, token: Seq<char>) -> Option<
    DependencyView,
> {
    if is_builtin(token) {
        Some(DependencyView::Builtin(token))
    } else if registry.dom().contains(token) {
        Some(DependencyView::Library(token))
    } else if starts_with(token, local_prefix()) {
        Some(DependencyView::Local(token.skip(local_prefix().len() as int)))
    } else if ends_with(token, archive_suffix()) {
        Some(DependencyView::RemoteArchive(token))
    } else {
        None
    }
}

/// What a declaration of the file `file` resolves to: one kind, or one
/// error.
pub open spec fn classify(
    registry: Map<Seq<char>, EntryView>,
    file: Seq<char>,
    d: DeclarationView,
) -> Result<DependencyView, ErrorView> {
    if d.raw_token.len() == 0 {
        Err(ErrorView::EmptyDeclaration { file, line: d.line_number })
    } else {
        match kind_of(registry, d.raw_token) {
            Some(kind) => Ok(kind),
            None => Err(
                ErrorView::UnknownDependency { file, token: d.raw_token, line: d.line_number },
            ),
        }
    }
}

/// What has to be brought into the cache directory for one dependency.
#[derive(Debug, PartialEq, Eq)]
pub enum Fetch {
    /// Clone the library `name` from `url`, unless its directory is there
    /// already, and check out `version` where the library is pinned.
    Library { line: usize, name: String, url: String, version: Option<String> },
    /// Copy the file at `path` under its base name.
    Local { path: String },
    /// Download the archive at `url` and unpack it.
    Archive { url: String },
}

/// The mathematical value of a [`Fetch`].
pub enum FetchView {
    Library { line: nat, name: Seq<char>, url: Seq<char>, version: Option<Seq<char>> },
    Local { path: Seq<char> },
    Archive { url: Seq<char> },
}

impl View for Fetch {
    type V = FetchView;

    open spec fn view(&self) -> FetchView {
        match self {
            Fetch::Library { line, name, url, version } => FetchView::Library {
                line: *line as nat,
                name: name@,
                url: url@,
                version: match version {
                    Some(v) => Some(v@),
                    None => None,
                },
            },
            Fetch::Local { path } => FetchView::Local { path: path@ },
            Fetch::Archive { url } => FetchView::Archive { url: url@ },
        }
    }
}

impl DeepView for Fetch {
    type V = FetchView;

    open spec fn deep_view(&self) -> FetchView {
        self@
    }
}

/// What a dependency declared at `line` asks to be fetched; a builtin asks
/// for nothing.
pub open spec fn fetch_of(registry: Map<Seq<char>, EntryView>, d: DependencyView, line: nat)
    -> Option<FetchView> {
    match d {
        DependencyView::Builtin(_) => None,
        DependencyView::Library(name) => Some(
            FetchView::Library {
                line,
                name,
                url: registry[name].source_url,
                version: registry[name].version,
            },
        ),
        DependencyView::Local(path) => Some(FetchView::Local { path }),
        DependencyView::RemoteArchive(url) => Some(FetchView::Archive { url }),
    }
}

/// The outcome of classifying the declarations of one file: the
/// dependencies up to the first error, what they ask to be fetched, and
/// that error, if there is one.
#[derive(Debug, PartialEq, Eq)]
pub struct ResolutionPlan {
    /// The file that the declarations were read from.
    pub file: String,
    /// The dependencies, in the order of their declarations.
    pub dependencies: Vec<ResolvedDependency>,
    /// What the dependencies ask to be fetched, in the same order.
    pub fetches: Vec<Fetch>,
    /// The first error among the declarations.
    pub error: Option<ResolutionError>,
}

/// The mathematical value of a [`ResolutionPlan`].
pub struct PlanView {
    pub file: Seq<char>,
    pub dependencies: Seq<DependencyView>,
    pub fetches: Seq<FetchView>,
    pub error: Option<ErrorView>,
}

impl View for ResolutionPlan {
    type V = PlanView;

    open spec fn view(&self) -> PlanView {
        PlanView {
            file: self.file@,
            dependencies: self.dependencies.deep_view(),
            fetches: self.fetches.deep_view(),
            error: self.error.deep_view(),
        }
    }
}

/// The plan for the declarations `ds` of the file `file`: the
/// declarations are classified in order, and the first error ends the
/// plan.
pub open spec fn plan_of(
    registry: Map<Seq<char>, EntryView>,
    file: Seq<char>,
    ds: Seq<DeclarationView>,
) -> PlanView
    decreases ds.len(),
{
    if ds.len() == 0 {
        PlanView { file, dependencies: Seq::empty(), fetches: Seq::empty(), error: None }
    } else {
        let before = plan_of(registry, file, ds.drop_last());
        if before.error is Some {
            before
        } else {
            match classify(registry, file, ds.last()) {
                Err(e) => PlanView { error: Some(e), ..before },
                Ok(d) => PlanView {
                    dependencies: before.dependencies.push(d),
                    fetches: match fetch_of(registry, d, ds.last().line_number) {
                        Some(f) => before.fetches.push(f),
                        None => before.fetches,
                    },
                    ..before
                },
            }
        }
    }
}

/// What a plan comes to: its dependencies, or its error.
pub open spec fn outcome_of(p: PlanView) -> Result<Seq<DependencyView>, ErrorView> {
    match p.error {
        Some(e) => Err(e),
        None => Ok(p.dependencies),
    }
}

/// What the source text `code` of the file `file` resolves to.
pub open spec fn resolve_spec(
    registry: Map<Seq<char>, EntryView>,
    file: Seq<char>,
    code: Seq<char>,
) -> Result<Seq<DependencyView>, ErrorView> {
    outcome_of(plan_of(registry, file, declarations_in(lines(code))))
}

/// The mathematical value of the result of a resolution.
pub open spec fn result_view(r: Result<Vec<ResolvedDependency>, ResolutionError>) -> Result<
    Seq<DependencyView>,
    ErrorView,
> {
    match r {
        Ok(deps) => Ok(deps.deep_view()),
        Err(e) => Err(e@),
    }
}

/// Once a plan has met an error, further declarations change nothing.
pub proof fn lemma_error_ends_plan(
    registry: Map<Seq<char>, EntryView>,
    file: Seq<char>,
    ds: Seq<DeclarationView>,
    k: int,
)
    requires
        0 <= k <= ds.len(),
        plan_of(registry, file, ds.take(k)).error is Some,
    ensures
        plan_of(registry, file, ds) == plan_of(registry, file, ds.take(k)),
    decreases ds.len(),
{
    if k == ds.len() {
        assert(ds.take(k) =~= ds);
    } else {
        assert(ds.drop_last().take(k) =~= ds.take(k));
        lemma_error_ends_plan(registry, file, ds.drop_last(), k);
    }
}

/// A plan holds one dependency for each declaration before the first
/// error, in the order of the declarations. Without an error it holds one
/// for every declaration; with an error, the error is what the first
/// declaration after them comes to.
pub proof fn law_plan_follows_declarations(
    registry: Map<Seq<char>, EntryView>,
    file: Seq<char>,
    ds: Seq<DeclarationView>,
)
    ensures
        ({
            let p = plan_of(registry, file, ds);
            &&& p.file == file
            &&& p.dependencies.len() <= ds.len()
            &&& forall|i: int|
                0 <= i < p.dependencies.len() ==> classify(registry, file, #[trigger] ds[i]) == Ok::<
                    DependencyView,
                    ErrorView,
                >(p.dependencies[i])
            &&& p.error is None ==> p.dependencies.len() == ds.len()
            &&& p.error matches Some(e) ==> p.dependencies.len() < ds.len() && classify(
                registry,
                file,
                ds[p.dependencies.len() as int],
            ) == Err::<DependencyView, ErrorView>(e)
        }),
    decreases ds.len(),
{
    if ds.len() > 0 {
        let front = ds.drop_last();
        law_plan_follows_declarations(registry, file, front);
        let before = plan_of(registry, file, front);
        let p = plan_of(registry, file, ds);
        assert forall|i: int| 0 <= i < p.dependencies.len() implies classify(
            registry,
            file,
            #[trigger] ds[i],
        ) == Ok::<DependencyView, ErrorView>(p.dependencies[i]) by {
            if i < before.dependencies.len() {
                assert(front[i] == ds[i]);
            }
        }
        if before.error is Some {
            assert(front[before.dependencies.len() as int] == ds[before.dependencies.len() as int]);
        }
    }
}

/// Where every declaration of a text has a kind, the text resolves to
/// exactly one dependency for each declaration line, in the order of the
/// lines: the dependency at place `i` is the kind of the token of the
/// `i`-th declaration line.
pub proof fn law_one_dependency_per_declaration_line(
    registry: Map<Seq<char>, EntryView>,
    file: Seq<char>,
    code: Seq<char>,
)
    ensures
        resolve_spec(registry, file, code) matches Ok(deps) ==> {
            let ds = declarations_in(lines(code));
            &&& deps.len() == count_declarations(lines(code))
            &&& deps.len() == ds.len()
            &&& forall|i: int|
                0 <= i < deps.len() ==> kind_of(registry, (#[trigger] ds[i]).raw_token) == Some(
                    deps[i],
                )
            &&& forall|i: int, j: int|
                0 <= i < j < ds.len() ==> ds[i].line_number < ds[j].line_number
        },
{
    let ds = declarations_in(lines(code));
    lemma_declarations_follow_lines(lines(code));
    law_plan_follows_declarations(registry, file, ds);
}

/// Where a text does not resolve, the error is that of the first
/// declaration that has no kind, and every declaration before it has one.
pub proof fn law_first_error_ends_resolution(
    registry: Map<Seq<char>, EntryView>,
    file: Seq<char>,
    code: Seq<char>,
)
    ensures
        resolve_spec(registry, file, code) matches Err(e) ==> {
            let ds = declarations_in(lines(code));
            exists|k: int|
                {
                    &&& 0 <= k < ds.len()
                    &&& #[trigger] classify(registry, file, ds[k]) == Err::<
                        DependencyView,
                        ErrorView,
                    >(e)
                    &&& forall|i: int| 0 <= i < k ==> classify(registry, file, #[trigger] ds[i]) is Ok
                }
        },
{
    let ds = declarations_in(lines(code));
    law_plan_follows_declarations(registry, file, ds);
    let p = plan_of(registry, file, ds);
    if p.error is Some {
        let k = p.dependencies.len() as int;
        assert(classify(registry, file, ds[k]) is Err);
    }
}

/// Fetching never changes what a text resolves to: a resolution that is
/// carried out ends with the dependencies that classifying alone gives,
/// or with the error that classifying alone gives, or with a library that
/// could not be fetched.
pub proof fn law_fetching_agrees_with_classifying(
    registry: Map<Seq<char>, EntryView>,
    file: Seq<char>,
    code: Seq<char>,
    replies: Seq<ReplyView>,
)
    ensures
        ({
            let plan = plan_of(registry, file, declarations_in(lines(code)));
            let s = ResolutionView::begin(plan).run(replies);
            &&& (s.request() matches RequestView::Resolved { dependencies } ==> resolve_spec(
                registry,
                file,
                code,
            ) == Ok::<Seq<DependencyView>, ErrorView>(dependencies))
            &&& (s.request() matches RequestView::Failed { error } ==> error
                is MaterializationFailed || resolve_spec(registry, file, code) == Err::<
                Seq<DependencyView>,
                ErrorView,
            >(error))
        }),
{
    law_resolution_follows_plan(plan_of(registry, file, declarations_in(lines(code))), replies);
}

/// A library that is known whatever the manifest holds.
pub open spec fn hosted(name: Seq<char>, url: Seq<char>) -> EntryView {
    EntryView { name, version: None, source_url: url }
}

/// The libraries that are known whatever the manifest holds.
pub open spec fn fallback() -> Seq<EntryView> {
    seq![
        hosted("crich-cli"@, "https://github.com/Velvet-Lang/crich-cli.git"@),
        hosted("silk-gui"@, "https://github.com/Velvet-Lang/silk-gui.git"@),
        hosted("crux-lib"@, "https://github.com/Velvet-Lang/crux-lib.git"@),
        hosted("nestdb-lib"@, "https://github.com/Velvet-Lang/nestdb-lib.git"@),
        hosted("aegis-lib"@, "https://github.com/Velvet-Lang/aegis-lib.git"@),
    ]
}

/// What a resolver knows once it has read the manifest text `manifest`:
/// the fallback libraries, overridden by the manifest wherever it names
/// one of them.
pub open spec fn known_libraries(manifest: Seq<char>) -> Map<Seq<char>, EntryView> {
    registry_of(fallback()).union_prefer_right(manifest_registry(manifest))
}

/// The fallback libraries bear five different names.
pub proof fn lemma_fallback_names_unique()
    ensures
        names_unique(fallback()),
        fallback().len() == 5,
{
    reveal_strlit("crich-cli");
    reveal_strlit("silk-gui");
    reveal_strlit("crux-lib");
    reveal_strlit("nestdb-lib");
    reveal_strlit("aegis-lib");
    let f = fallback();
    assert(f[0].name.len() == 9 && f[0].name[0] == 'c');
    assert(f[1].name.len() == 8 && f[1].name[0] == 's');
    assert(f[2].name.len() == 8 && f[2].name[0] == 'c');
    assert(f[3].name.len() == 10);
    assert(f[4].name.len() == 9 && f[4].name[0] == 'a');
}

/// Every fallback library is known whatever the manifest holds, and it is
/// known as the fallback has it unless the manifest names it.
pub proof fn law_fallback_always_known(manifest: Seq<char>, i: int)
    requires
        0 <= i < fallback().len(),
    ensures
        known_libraries(manifest).dom().contains(fallback()[i].name),
        !manifest_registry(manifest).dom().contains(fallback()[i].name) ==> known_libraries(
            manifest,
        )[fallback()[i].name] == fallback()[i],
        manifest_registry(manifest).dom().contains(fallback()[i].name) ==> known_libraries(
            manifest,
        )[fallback()[i].name] == manifest_registry(manifest)[fallback()[i].name],
{
    lemma_fallback_names_unique();
    law_last_entry_of_a_name_stays(fallback(), i);
}

/// Where nothing could be read of the manifest, exactly the fallback
/// libraries are known.
pub proof fn law_empty_manifest_leaves_fallback(i: int)
    requires
        0 <= i < fallback().len(),
    ensures
        known_libraries(Seq::empty()) == registry_of(fallback()),
        known_libraries(Seq::empty()).dom().contains(fallback()[i].name),
        known_libraries(Seq::empty())[fallback()[i].name] == fallback()[i],
        known_libraries(Seq::empty()).dom().len() == 5,
{
    lemma_fallback_names_unique();
    law_last_entry_of_a_name_stays(fallback(), i);
    lemma_registry_of_len(fallback());
    assert(lines(Seq::<char>::empty()) =~= Seq::<Seq<char>>::empty());
    assert(manifest_registry(Seq::empty()) =~= Map::<Seq<char>, EntryView>::empty());
    assert(known_libraries(Seq::empty()) =~= registry_of(fallback()));
}

/// The fallback libraries.
pub fn fallback_entries() -> (es: Vec<RegistryEntry>)
    ensures
        es.deep_view() == fallback(),
{
    let mut es: Vec<RegistryEntry> = Vec::new();
    es.push(RegistryEntry::unpinned("crich-cli", "https://github.com/Velvet-Lang/crich-cli.git"));
    es.push(RegistryEntry::unpinned("silk-gui", "https://github.com/Velvet-Lang/silk-gui.git"));
    es.push(RegistryEntry::unpinned("crux-lib", "https://github.com/Velvet-Lang/crux-lib.git"));
    es.push(
        RegistryEntry::unpinned("nestdb-lib", "https://github.com/Velvet-Lang/nestdb-lib.git"),
    );
    es.push(RegistryEntry::unpinned("aegis-lib", "https://github.com/Velvet-Lang/aegis-lib.git"));
    proof {
        assert(es.deep_view() =~= fallback());
    }
    es
}

/// The name of the directory, beside a source file, that holds what was
/// fetched for it: one subdirectory for each library.
pub fn cache_directory_name() -> (name: &'static str)
    ensures
        name@ == "weave-library"@,
{
    "weave-library"
}

/// Where the library `name` lies under the cache directory `cache_root`.
pub open spec fn library_directory_of(cache_root: Seq<char>, name: Seq<char>) -> Seq<char> {
    cache_root + "/"@ + name
}

/// The directory of the library `name` under the cache directory
/// `cache_root`: the one place where the library is cloned to and looked
/// for.
pub fn library_directory(cache_root: &str, name: &str) -> (path: String)
    ensures
        path@ == library_directory_of(cache_root@, name@),
{
    let mut path = String::from_str(cache_root);
    path.append("/");
    path.append(name);
    path
}

/// Tests a token for a builtin namespace.
pub fn is_builtin_name(token: &String) -> (b: bool)
    ensures
        b == is_builtin(token@),
{
    *token == String::from_str("std") || *token == String::from_str("math") || *token
        == String::from_str("io")
}

/// Resolves the dependency declarations of source modules against a
/// registry of libraries.
#[derive(Debug)]
pub struct DepResolver {
    registry: Registry,
}

impl View for DepResolver {
    type V = Map<Seq<char>, EntryView>;

    closed spec fn view(&self) -> Map<Seq<char>, EntryView> {
        self.registry@
    }
}

impl DepResolver {
    /// A resolver that knows the fallback libraries and what the manifest
    /// text declares. Where the manifest could not be fetched, hand in the
    /// empty text: the fallback libraries are known all the same.
    pub fn new(manifest: &str) -> (r: Self)
        ensures
            r@ == known_libraries(manifest@),
    {
        let fallback = fallback_entries();
        DepResolver { registry: Registry::load(manifest, &fallback) }
    }

    /// A resolver made from what fetching the manifest gave: its text, or
    /// the reason why it could not be fetched. A manifest that could not
    /// be fetched is no obstacle: the fallback libraries are known all
    /// the same.
    pub fn from_fetch(fetched: Result<String, String>) -> (r: Self)
        ensures
            r@ == match fetched {
                Ok(manifest) => known_libraries(manifest@),
                Err(_) => registry_of(fallback()),
            },
    {
        match fetched {
            Ok(manifest) => DepResolver::new(manifest.as_str()),
            Err(_) => {
                let fallback = fallback_entries();
                DepResolver { registry: Registry::from_entries(&fallback) }
            },
        }
    }

    /// A resolver over a registry of one's own.
    pub fn with_registry(registry: Registry) -> (r: Self)
        ensures
            r@ == registry@,
    {
        DepResolver { registry }
    }

    /// The registry that declarations are resolved against.
    pub fn registry(&self) -> (r: &Registry)
        ensures
            r@ == self@,
    {
        &self.registry
    }

    /// The kind of a token that is not empty, if it has one.
    fn kind(&self, token: &String) -> (r: Option<ResolvedDependency>)
        ensures
            r.deep_view() == kind_of(self@, token@),
    {
        if is_builtin_name(token) {
            return Some(ResolvedDependency::Builtin(token.clone()));
        }
        if self.registry.contains(token.as_str()) {
            return Some(ResolvedDependency::Library(token.clone()));
        }
        let chars = to_chars(token.as_str());
        let n = chars.len();
        let prefix = to_chars("local:");
        let suffix = to_chars(".tar.gz");
        proof {
            assert(chars@.subrange(0, n as int) =~= chars@);
        }
        if matches_at(&chars, 0, n, &prefix) {
            let path = slice_to_string(token.as_str(), &chars, prefix.len(), n);
            return Some(ResolvedDependency::Local(path));
        }
        if suffix.len() <= n {
            let at = n - suffix.len();
            proof {
                let tail = chars@.subrange(at as int, n as int);
                assert(tail.subrange(0, suffix@.len() as int) =~= tail);
            }
            if matches_at(&chars, at, n, &suffix) {
                return Some(ResolvedDependency::RemoteArchive(token.clone()));
            }
        }
        None
    }

    /// What one declaration of the file `file_path` resolves to.
    pub fn classify(&self, declaration: &DependencyDeclaration, file_path: &str) -> (r: Result<
        ResolvedDependency,
        ResolutionError,
    >)
        ensures
            match r {
                Ok(d) => classify(self@, file_path@, declaration@) == Ok::<
                    DependencyView,
                    ErrorView,
                >(d@),
                Err(e) => classify(self@, file_path@, declaration@) == Err::<
                    DependencyView,
                    ErrorView,
                >(e@),
            },
    {
        if declaration.raw_token.as_str().is_empty() {
            return Err(
                ResolutionError::EmptyDeclaration {
                    file: String::from_str(file_path),
                    line: declaration.line_number,
                },
            );
        }
        match self.kind(&declaration.raw_token) {
            Some(d) => Ok(d),
            None => Err(
                ResolutionError::UnknownDependency {
                    file: String::from_str(file_path),
                    token: declaration.raw_token.clone(),
                    line: declaration.line_number,
                },
            ),
        }
    }

    /// What a dependency declared at `line` asks to be fetched.
    fn fetch_for(&self, d: &ResolvedDependency, line: usize) -> (r: Option<Fetch>)
        requires
            d@ matches DependencyView::Library(name) ==> self@.dom().contains(name),
        ensures
            r.deep_view() == fetch_of(self@, d@, line as nat),
    {
        match d {
            ResolvedDependency::Builtin(_) => None,
            ResolvedDependency::Library(name) => {
                match self.registry.get(name.as_str()) {
                    Some(entry) => Some(
                        Fetch::Library {
                            line,
                            name: name.clone(),
                            url: entry.source_url.clone(),
                            version: match &entry.version {
                                Some(v) => Some(v.clone()),
                                None => None,
                            },
                        },
                    ),
                    None => None,
                }
            },
            ResolvedDependency::Local(path) => Some(Fetch::Local { path: path.clone() }),
            ResolvedDependency::RemoteArchive(url) => Some(Fetch::Archive { url: url.clone() }),
        }
    }

    /// Classifies the declarations of `code`, the text of the file
    /// `file_path`, in order and up to the first error, and lists what the
    /// dependencies ask to be fetched. Nothing is fetched here.
    pub fn plan(&self, code: &str, file_path: &str) -> (p: ResolutionPlan)
        ensures
            p@ == plan_of(self@, file_path@, declarations_in(lines(code@))),
    {
        let declarations = scan_declarations(code);
        let ghost ds = declarations.deep_view();
        let mut dependencies: Vec<ResolvedDependency> = Vec::new();
        let mut fetches: Vec<Fetch> = Vec::new();
        let mut i: usize = 0;
        proof {
            assert(dependencies.deep_view() =~= Seq::<DependencyView>::empty());
            assert(fetches.deep_view() =~= Seq::<FetchView>::empty());
        }
        while i < declarations.len()
            invariant
                i <= declarations.len(),
                ds == declarations.deep_view(),
                ds == declarations_in(lines(code@)),
                plan_of(self@, file_path@, ds.take(i as int)) == (PlanView {
                    file: file_path@,
                    dependencies: dependencies.deep_view(),
                    fetches: fetches.deep_view(),
                    error: None,
                }),
            decreases declarations.len() - i,
        {
            let ghost deps_before = dependencies.deep_view();
            let ghost fetches_before = fetches.deep_view();
            proof {
                assert(ds.take(i + 1).drop_last() =~= ds.take(i as int));
                assert(ds.take(i + 1).last() == declarations[i as int]@);
            }
            match self.classify(&declarations[i], file_path) {
                Err(e) => {
                    proof {
                        lemma_error_ends_plan(self@, file_path@, ds, i + 1);
                    }
                    return ResolutionPlan {
                        file: String::from_str(file_path),
                        dependencies,
                        fetches,
                        error: Some(e),
                    };
                },
                Ok(d) => {
                    match self.fetch_for(&d, declarations[i].line_number) {
                        Some(f) => {
                            fetches.push(f);
                            proof {
                                assert(fetches.deep_view() =~= fetches_before.push(f@));
                            }
                        },
                        None => {},
                    }
                    dependencies.push(d);
                    proof {
                        assert(dependencies.deep_view() =~= deps_before.push(d@));
                    }
                },
            }
            i += 1;
        }
        proof {
            assert(ds.take(i as int) =~= ds);
        }
        ResolutionPlan { file: String::from_str(file_path), dependencies, fetches, error: None }
    }

    /// Resolves the declarations of `code`, the text of the file
    /// `file_path`: the dependencies in the order of their declarations,
    /// or the first error. Nothing is fetched here.
    pub fn resolve(&self, code: &str, file_path: &str) -> (r: Result<
        Vec<ResolvedDependency>,
        ResolutionError,
    >)
        ensures
            result_view(r) == resolve_spec(self@, file_path@, code@),
    {
        let plan = self.plan(code, file_path);
        match plan.error {
            Some(e) => Err(e),
            None => Ok(plan.dependencies),
        }
    }

    /// Sets out to resolve `code`, the text of the file `file_path`, and
    /// to fetch what its dependencies ask for: the declarations are
    /// classified here, the fetching is up to the caller of the
    /// [`Resolution`].
    pub fn begin(&self, code: &str, file_path: &str) -> (r: Resolution)
        ensures
            r@ == ResolutionView::begin(
                plan_of(self@, file_path@, declarations_in(lines(code@))),
            ),
    {
        Resolution::begin(self.plan(code, file_path))
    }

    /// Sets out to bring the libraries of a cache directory up to date;
    /// `entries` are the names of the entries of that directory.
    pub fn update_lib(&self, entries: Vec<String>) -> (r: Synchronizer)
        ensures
            r@ == SyncView::begin(entries.deep_view()),
    {
        Synchronizer::begin(entries)
    }

    /// Resolves the file `file_path` from what reading it gave: its text,
    /// or the reason why it could not be read.
    pub fn resolve_file(&self, file_path: &str, contents: Result<String, String>) -> (r: Result<
        Vec<ResolvedDependency>,
        ResolutionError,
    >)
        ensures
            result_view(r) == match contents {
                Ok(code) => resolve_spec(self@, file_path@, code@),
                Err(cause) => Err(ErrorView::ReadFailure { file: file_path@, cause: cause@ }),
            },
    {
        match contents {
            Ok(code) => self.resolve(code.as_str(), file_path),
            Err(cause) => Err(
                ResolutionError::ReadFailure { file: String::from_str(file_path), cause },
            ),
        }
    }
}

} // verus!
