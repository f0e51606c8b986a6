//! Resolving crate names against the dependencies of a cargo manifest.
//!
//! Generated code has to name this library by the path under which the crate
//! that is being built knows it. That path is the key of the dependency, which
//! differs from the crate's name where the dependency was renamed. The manifest
//! itself is read and parsed elsewhere; this module works on the dependencies
//! as plain values.

use vstd::prelude::*;
use vstd::string::*;

verus! {

/// Why a crate name has no single path.
#[derive(Debug)]
pub enum TryResolveCratePathError {
    /// Several dependencies of one section name this crate.
    AmbiguousDependency(String),
}

impl View for TryResolveCratePathError {
    type V = Seq<char>;

    /// The name of the crate that could not be resolved.
    open spec fn view(&self) -> Seq<char> {
        match self {
            TryResolveCratePathError::AmbiguousDependency(name) => name@,
        }
    }
}

impl TryResolveCratePathError {
    /// The error as a sentence.
    pub fn message(&self) -> (text: String)
        ensures
            text@ == "Ambiguous crate dependency "@ + self@ + "."@,
    {
        match self {
            TryResolveCratePathError::AmbiguousDependency(name) => {
                let mut text = String::from_str("Ambiguous crate dependency ");
                text.append(name.as_str());
                text.append(".");
                text
            },
        }
    }

    /// A copy of the error.
    pub fn duplicate(&self) -> (copy: TryResolveCratePathError)
        ensures
            copy@ == self@,
    {
        match self {
            TryResolveCratePathError::AmbiguousDependency(name) => {
                TryResolveCratePathError::AmbiguousDependency(name.clone())
            },
        }
    }
}

/// One entry of a dependencies section.
pub struct Dependency {
    /// The key of the entry: the name under which the crate is used.
    pub key: String,
    /// The value of the entry's `package` field, where it has one.
    pub package: Option<String>,
}

/// A dependency as the resolution reads it.
pub struct DependencyView {
    pub key: Seq<char>,
    pub package: Option<Seq<char>>,
}

impl View for Dependency {
    type V = DependencyView;

    open spec fn view(&self) -> DependencyView {
        DependencyView {
            key: self.key@,
            package: match self.package {
                Some(package) => Some(package@),
                None => None,
            },
        }
    }
}

impl DependencyView {
    /// The name of the crate that the dependency brings in: the `package` field,
    /// or the key where there is none.
    pub open spec fn crate_name(self) -> Seq<char> {
        match self.package {
            Some(package) => package,
            None => self.key,
        }
    }
}

/// What a crate name resolves to: the key of its dependency, or the crate name
/// again where several dependencies bring the crate in.
pub type Resolution = Result<Seq<char>, Seq<char>>;

/// The resolutions after one more dependency has been read.
pub open spec fn resolve_one(resolved: Map<Seq<char>, Resolution>, dependency: DependencyView) -> Map<
    Seq<char>,
    Resolution,
> {
    let name = dependency.crate_name();
    if resolved.dom().contains(name) {
        resolved.insert(name, Err(name))
    } else {
        resolved.insert(name, Ok(dependency.key))
    }
}

/// The resolutions after the dependencies have been read in their order.
pub open spec fn resolve_all(
    resolved: Map<Seq<char>, Resolution>,
    dependencies: Seq<DependencyView>,
) -> Map<Seq<char>, Resolution>
    decreases dependencies.len(),
{
    if dependencies.len() == 0 {
        resolved
    } else {
        resolve_one(resolve_all(resolved, dependencies.drop_last()), dependencies.last())
    }
}

/// How many of the dependencies bring in the crate `name`.
pub open spec fn occurrences(dependencies: Seq<DependencyView>, name: Seq<char>) -> nat
    decreases dependencies.len(),
{
    if dependencies.len() == 0 {
        0
    } else if dependencies.last().crate_name() == name {
        occurrences(dependencies.drop_last(), name) + 1
    } else {
        occurrences(dependencies.drop_last(), name)
    }
}

/// A crate counts as often as there are dependencies that bring it in.
pub proof fn lemma_occurrences(dependencies: Seq<DependencyView>, name: Seq<char>, i: int)
    requires
        0 <= i < dependencies.len(),
        dependencies[i].crate_name() == name,
    ensures
        occurrences(dependencies, name) >= 1,
        occurrences(dependencies, name) == 1 ==> forall|j: int|
            0 <= j < dependencies.len() && dependencies[j].crate_name() == name ==> j == i,
    decreases dependencies.len(),
{
    let front = dependencies.drop_last();
    if i < front.len() {
        lemma_occurrences(front, name, i);
        assert forall|j: int|
            occurrences(dependencies, name) == 1 && 0 <= j < dependencies.len()
                && dependencies[j].crate_name() == name implies j == i by {
            if j < front.len() {
                assert(front[j].crate_name() == name);
            }
        }
    } else {
        assert forall|j: int|
            occurrences(dependencies, name) == 1 && 0 <= j < dependencies.len()
                && dependencies[j].crate_name() == name implies j == i by {
            if j < front.len() {
                lemma_occurrences(front, name, j);
            }
        }
    }
}

/// Resolving a section from nothing gives each crate by the number of
/// dependencies that bring it in: no path for none, the key of the dependency
/// for one, and the error for more.
pub proof fn lemma_resolution_by_occurrences(dependencies: Seq<DependencyView>, name: Seq<char>)
    ensures
        occurrences(dependencies, name) == 0 <==> !resolve_all(
            Map::empty(),
            dependencies,
        ).dom().contains(name),
        occurrences(dependencies, name) == 1 ==> forall|i: int|
            0 <= i < dependencies.len() && dependencies[i].crate_name() == name ==> resolve_all(
                Map::empty(),
                dependencies,
            )[name] == Ok::<Seq<char>, Seq<char>>(dependencies[i].key),
        occurrences(dependencies, name) >= 2 ==> resolve_all(Map::empty(), dependencies)[name]
            == Err::<Seq<char>, Seq<char>>(name),
    decreases dependencies.len(),
{
    if dependencies.len() > 0 {
        let front = dependencies.drop_last();
        let last = dependencies.last();
        lemma_resolution_by_occurrences(front, name);
        let before = resolve_all(Map::<Seq<char>, Resolution>::empty(), front);
        assert(resolve_all(Map::empty(), dependencies) == resolve_one(before, last));
        if last.crate_name() == name {
            if occurrences(dependencies, name) == 1 {
                assert forall|i: int|
                    0 <= i < dependencies.len() && dependencies[i].crate_name()
                        == name implies resolve_one(before, last)[name] == Ok::<
                    Seq<char>,
                    Seq<char>,
                >(dependencies[i].key) by {
                    lemma_occurrences(dependencies, name, dependencies.len() - 1);
                }
            }
        } else {
            if occurrences(dependencies, name) == 1 {
                assert forall|i: int|
                    0 <= i < dependencies.len() && dependencies[i].crate_name()
                        == name implies resolve_one(before, last)[name] == Ok::<
                    Seq<char>,
                    Seq<char>,
                >(dependencies[i].key) by {
                    assert(front[i].crate_name() == name);
                }
            }
        }
    }
}

/// The views of the dependencies, in their order.
pub open spec fn dependency_views(dependencies: Seq<Dependency>) -> Seq<DependencyView> {
    Seq::new(dependencies.len(), |i: int| dependencies[i]@)
}

struct ResolvedEntry {
    name: String,
    resolved: Result<String, TryResolveCratePathError>,
}

impl ResolvedEntry {
    spec fn resolution(&self) -> Resolution {
        match self.resolved {
            Ok(key) => Ok(key@),
            Err(error) => Err(error@),
        }
    }
}

spec fn names_distinct(entries: Seq<ResolvedEntry>) -> bool {
    forall|i: int, j: int| 0 <= i < j < entries.len() ==> entries[i].name@ != entries[j].name@
}

spec fn as_map(entries: Seq<ResolvedEntry>) -> Map<Seq<char>, Resolution>
    decreases entries.len(),
{
    if entries.len() == 0 {
        Map::empty()
    } else {
        as_map(entries.drop_last()).insert(entries.last().name@, entries.last().resolution())
    }
}

proof fn lemma_as_map_domain(entries: Seq<ResolvedEntry>, name: Seq<char>)
    ensures
        as_map(entries).dom().contains(name) <==> exists|i: int|
            0 <= i < entries.len() && entries[i].name@ == name,
    decreases entries.len(),
{
    if entries.len() > 0 {
        let front = entries.drop_last();
        lemma_as_map_domain(front, name);
        if exists|i: int| 0 <= i < front.len() && front[i].name@ == name {
            let i = choose|i: int| 0 <= i < front.len() && front[i].name@ == name;
            assert(entries[i].name@ == name);
        }
        if exists|i: int| 0 <= i < entries.len() && entries[i].name@ == name {
            let i = choose|i: int| 0 <= i < entries.len() && entries[i].name@ == name;
            if i < front.len() {
                assert(front[i].name@ == name);
            }
        }
    }
}

proof fn lemma_as_map_value(entries: Seq<ResolvedEntry>, i: int)
    requires
        names_distinct(entries),
        0 <= i < entries.len(),
    ensures
        as_map(entries).dom().contains(entries[i].name@),
        as_map(entries)[entries[i].name@] == entries[i].resolution(),
    decreases entries.len(),
{
    let front = entries.drop_last();
    if i < entries.len() - 1 {
        assert(names_distinct(front)) by {
            assert forall|a: int, b: int| 0 <= a < b < front.len() implies front[a].name@
                != front[b].name@ by {
                assert(entries[a].name@ != entries[b].name@);
            }
        }
        lemma_as_map_value(front, i);
        assert(entries[i].name@ != entries.last().name@);
    }
}

proof fn lemma_as_map_update(entries: Seq<ResolvedEntry>, i: int, entry: ResolvedEntry)
    requires
        names_distinct(entries),
        0 <= i < entries.len(),
        entry.name@ == entries[i].name@,
    ensures
        names_distinct(entries.update(i, entry)),
        as_map(entries.update(i, entry)) == as_map(entries).insert(
            entry.name@,
            entry.resolution(),
        ),
    decreases entries.len(),
{
    let updated = entries.update(i, entry);
    assert forall|a: int, b: int| 0 <= a < b < updated.len() implies updated[a].name@
        != updated[b].name@ by {
        assert(entries[a].name@ != entries[b].name@);
    }
    let front = entries.drop_last();
    if i == entries.len() - 1 {
        assert(updated.drop_last() == front);
        assert(as_map(updated) == as_map(entries).insert(entry.name@, entry.resolution()));
    } else {
        assert(names_distinct(front)) by {
            assert forall|a: int, b: int| 0 <= a < b < front.len() implies front[a].name@
                != front[b].name@ by {
                assert(entries[a].name@ != entries[b].name@);
            }
        }
        lemma_as_map_update(front, i, entry);
        assert(updated.drop_last() == front.update(i, entry));
        assert(updated.last() == entries.last());
        assert(entries[i].name@ != entries.last().name@);
        assert(as_map(updated) == as_map(entries).insert(entry.name@, entry.resolution()));
    }
}

/// What the crate names of one dependencies section resolve to.
///
/// The entries are kept in a list that is searched from the front, with no crate
/// name twice: of a hash map keyed by `String` Verus proves nothing, not even
/// that a name is found after it was put in.
pub struct ResolvedDependenciesMap {
    entries: Vec<ResolvedEntry>,
}

impl View for ResolvedDependenciesMap {
    type V = Map<Seq<char>, Resolution>;

    closed spec fn view(&self) -> Map<Seq<char>, Resolution> {
        as_map(self.entries@)
    }
}

impl ResolvedDependenciesMap {
    #[verifier::type_invariant]
    spec fn well_formed(&self) -> bool {
        names_distinct(self.entries@)
    }

    /// A map that resolves no crate name.
    pub fn new() -> (resolved: ResolvedDependenciesMap)
        ensures
            resolved@ == Map::<Seq<char>, Resolution>::empty(),
    {
        ResolvedDependenciesMap { entries: Vec::new() }
    }

    fn position(&self, name: &String) -> (found: Option<usize>)
        ensures
            match found {
                Some(i) => i < self.entries.len() && self.entries[i as int].name@ == name@,
                None => forall|i: int| 0 <= i < self.entries.len() ==> self.entries[i].name@ != name@,
            },
    {
        let mut i: usize = 0;
        while i < self.entries.len()
            invariant
                i <= self.entries.len(),
                forall|j: int| 0 <= j < i ==> self.entries[j].name@ != name@,
            decreases self.entries.len() - i,
        {
            if self.entries[i].name == *name {
                return Some(i);
            }
            i += 1;
        }
        None
    }

    /// What `crate_name` resolves to, if any dependency brings that crate in.
    pub fn get(&self, crate_name: &str) -> (found: Option<Result<String, TryResolveCratePathError>>)
        ensures
            match found {
                Some(Ok(key)) => self@.dom().contains(crate_name@) && self@[crate_name@] == Ok::<
                    Seq<char>,
                    Seq<char>,
                >(key@),
                Some(Err(error)) => self@.dom().contains(crate_name@) && self@[crate_name@] == Err::<
                    Seq<char>,
                    Seq<char>,
                >(error@),
                None => !self@.dom().contains(crate_name@),
            },
    {
        let name = String::from_str(crate_name);
        let found = self.position(&name);
        proof {
            use_type_invariant(self);
            lemma_as_map_domain(self.entries@, crate_name@);
        }
        match found {
            Some(i) => {
                proof {
                    lemma_as_map_value(self.entries@, i as int);
                }
                match &self.entries[i].resolved {
                    Ok(key) => Some(Ok(key.clone())),
                    Err(error) => Some(Err(error.duplicate())),
                }
            },
            None => None,
        }
    }

    /// Reads one dependency: the first that brings a crate in decides its path,
    /// and any further one makes the crate ambiguous.
    pub fn resolve(&mut self, dependency: &Dependency)
        ensures
            final(self)@ == resolve_one(old(self)@, dependency@),
    {
        let name = match &dependency.package {
            Some(package) => package.clone(),
            None => dependency.key.clone(),
        };
        assert(name@ == dependency@.crate_name());
        let found = self.position(&name);
        let mut current = ResolvedDependenciesMap::new();
        core::mem::swap(self, &mut current);
        proof {
            use_type_invariant(&current);
            lemma_as_map_domain(current.entries@, name@);
        }
        let mut entries = current.entries;
        match found {
            Some(i) => {
                let again = name.clone();
                let entry = ResolvedEntry {
                    name,
                    resolved: Err(TryResolveCratePathError::AmbiguousDependency(again)),
                };
                proof {
                    lemma_as_map_update(entries@, i as int, entry);
                }
                entries.set(i, entry);
            },
            None => {
                let entry = ResolvedEntry { name, resolved: Ok(dependency.key.clone()) };
                proof {
                    let pushed = entries@.push(entry);
                    assert(pushed.drop_last() == entries@);
                    assert forall|a: int, b: int| 0 <= a < b < pushed.len() implies pushed[a].name@
                        != pushed[b].name@ by {
                        if b < entries@.len() {
                            assert(entries@[a].name@ != entries@[b].name@);
                        } else {
                            assert(entries@[a].name@ != entry.name@);
                        }
                    }
                }
                entries.push(entry);
            },
        }
        *self = ResolvedDependenciesMap { entries };
    }
}

/// Reads the dependencies of one section into `resolved_dependencies`.
///
/// A crate that one dependency brings in resolves to that dependency's key. A
/// crate that several bring in resolves to an error that names the crate.
pub fn resolve_dependencies(
    dependencies_section: &Vec<Dependency>,
    resolved_dependencies: &mut ResolvedDependenciesMap,
)
    ensures
        final(resolved_dependencies)@ == resolve_all(
            old(resolved_dependencies)@,
            dependency_views(dependencies_section@),
        ),
{
    let ghost dependencies = dependency_views(dependencies_section@);
    let ghost before = resolved_dependencies@;
    let mut i: usize = 0;
    while i < dependencies_section.len()
        invariant
            i <= dependencies_section.len(),
            dependencies == dependency_views(dependencies_section@),
            resolved_dependencies@ == resolve_all(before, dependencies.subrange(0, i as int)),
        decreases dependencies_section.len() - i,
    {
        resolved_dependencies.resolve(&dependencies_section[i]);
        proof {
            let through = dependencies.subrange(0, i + 1);
            assert(through.drop_last() == dependencies.subrange(0, i as int));
            assert(through.last() == dependencies_section@[i as int]@);
        }
        i += 1;
    }
    proof {
        assert(dependencies.subrange(0, i as int) == dependencies);
    }
}

/// The dependencies of the crate that is being built, resolved section by section.
pub struct CargoManifest {
    resolved_dependencies: ResolvedDependenciesMap,
    resolved_dependencies_dev: ResolvedDependenciesMap,
    resolved_dependencies_build: ResolvedDependenciesMap,
}

impl CargoManifest {
    /// What the crate names of `[dependencies]` resolve to.
    pub closed spec fn dependencies(&self) -> Map<Seq<char>, Resolution> {
        self.resolved_dependencies@
    }

    /// What the crate names of `[dev-dependencies]` resolve to.
    pub closed spec fn dev_dependencies(&self) -> Map<Seq<char>, Resolution> {
        self.resolved_dependencies_dev@
    }

    /// What the crate names of `[build-dependencies]` resolve to.
    pub closed spec fn build_dependencies(&self) -> Map<Seq<char>, Resolution> {
        self.resolved_dependencies_build@
    }

    /// Resolves the three dependency sections of a manifest, each for itself.
    pub fn resolve(
        dependencies: &Vec<Dependency>,
        dev_dependencies: &Vec<Dependency>,
        build_dependencies: &Vec<Dependency>,
    ) -> (manifest: CargoManifest)
        ensures
            manifest.dependencies() == resolve_all(Map::empty(), dependency_views(dependencies@)),
            manifest.dev_dependencies() == resolve_all(
                Map::empty(),
                dependency_views(dev_dependencies@),
            ),
            manifest.build_dependencies() == resolve_all(
                Map::empty(),
                dependency_views(build_dependencies@),
            ),
    {
        let mut resolved_dependencies = ResolvedDependenciesMap::new();
        let mut resolved_dependencies_dev = ResolvedDependenciesMap::new();
        let mut resolved_dependencies_build = ResolvedDependenciesMap::new();
        resolve_dependencies(dependencies, &mut resolved_dependencies);
        resolve_dependencies(dev_dependencies, &mut resolved_dependencies_dev);
        resolve_dependencies(build_dependencies, &mut resolved_dependencies_build);
        CargoManifest {
            resolved_dependencies,
            resolved_dependencies_dev,
            resolved_dependencies_build,
        }
    }

    /// The path of the crate `crate_name` according to one resolved section: the
    /// key of the dependency that brings the crate in, nothing where none does,
    /// and the error where several do.
    pub fn try_resolve_crate_path_for_dependency_map(
        crate_name: &str,
        resolved_dependencies: &ResolvedDependenciesMap,
    ) -> (path: Result<Option<String>, TryResolveCratePathError>)
        ensures
            crate_path(resolved_dependencies@, crate_name@) == match path {
                Ok(Some(key)) => Ok::<Option<Seq<char>>, Seq<char>>(Some(key@)),
                Ok(None) => Ok(None),
                Err(error) => Err(error@),
            },
    {
        match resolved_dependencies.get(crate_name) {
            Some(Ok(key)) => Ok(Some(key)),
            Some(Err(error)) => Err(error),
            None => Ok(None),
        }
    }

    /// The path of the crate `crate_name` as a direct dependency of the crate
    /// that is being built.
    pub fn try_resolve_crate_path(&self, crate_name: &str) -> (path: Result<
        Option<String>,
        TryResolveCratePathError,
    >)
        ensures
            crate_path(self.dependencies(), crate_name@) == match path {
                Ok(Some(key)) => Ok::<Option<Seq<char>>, Seq<char>>(Some(key@)),
                Ok(None) => Ok(None),
                Err(error) => Err(error@),
            },
    {
        CargoManifest::try_resolve_crate_path_for_dependency_map(
            crate_name,
            &self.resolved_dependencies,
        )
    }

    /// The path to write for the crate `name`: the key of the one dependency that
    /// brings it in, and `name` itself where there is no such dependency.
    pub fn get_path(&self, name: &str) -> (path: String)
        ensures
            path@ == match crate_path(self.dependencies(), name@) {
                Ok(Some(key)) => key,
                _ => name@,
            },
    {
        match self.try_resolve_crate_path(name) {
            Ok(Some(key)) => key,
            _ => String::from_str(name),
        }
    }
}

/// The path of a crate according to the resolutions of one section.
pub open spec fn crate_path(resolved: Map<Seq<char>, Resolution>, crate_name: Seq<char>) -> Result<
    Option<Seq<char>>,
    Seq<char>,
> {
    if resolved.dom().contains(crate_name) {
        match resolved[crate_name] {
            Ok(key) => Ok(Some(key)),
            Err(name) => Err(name),
        }
    } else {
        Ok(None)
    }
}

/// A module path: its segments, and whether it starts at the crate root with `::`.
pub struct CratePath {
    pub leading_colon: bool,
    pub segments: Vec<String>,
}

/// The segments as sequences of characters, in their order.
pub open spec fn segment_views(segments: Seq<String>) -> Seq<Seq<char>> {
    Seq::new(segments.len(), |i: int| segments[i]@)
}

/// The segments with `::` between them.
pub open spec fn joined_by_colons(segments: Seq<Seq<char>>) -> Seq<char>
    decreases segments.len(),
{
    if segments.len() == 0 {
        Seq::empty()
    } else if segments.len() == 1 {
        segments[0]
    } else {
        joined_by_colons(segments.drop_last()) + "::"@ + segments.last()
    }
}

/// How a path is written: `::` in front where it starts at the root, then the
/// segments with `::` between them. A path of no segments is written as nothing.
pub open spec fn path_text(leading_colon: bool, segments: Seq<Seq<char>>) -> Seq<char> {
    if segments.len() == 0 {
        Seq::empty()
    } else if leading_colon {
        "::"@ + joined_by_colons(segments)
    } else {
        joined_by_colons(segments)
    }
}

/// Writes a path out as text.
pub fn pretty_format_syn_path(path: &CratePath) -> (text: String)
    requires
        path.leading_colon || path.segments@.len() > 0,
    ensures
        text@ == path_text(path.leading_colon, segment_views(path.segments@)),
{
    let mut text = String::new();
    if path.segments.len() == 0 {
        return text;
    }
    if path.leading_colon {
        text.append("::");
    }
    let ghost segments = segment_views(path.segments@);
    let ghost lead: Seq<char> = text@;
    let mut i: usize = 0;
    while i < path.segments.len()
        invariant
            i <= path.segments.len(),
            segments == segment_views(path.segments@),
            text@ == lead + joined_by_colons(segments.subrange(0, i as int)),
        decreases path.segments.len() - i,
    {
        if i != 0 {
            text.append("::");
        }
        text.append(path.segments[i].as_str());
        proof {
            let through = segments.subrange(0, i + 1);
            assert(through.drop_last() == segments.subrange(0, i as int));
            assert(through.last() == path.segments@[i as int]@);
        }
        i += 1;
    }
    proof {
        assert(segments.subrange(0, i as int) == segments);
    }
    text
}

} // verus!
