//! Resolving the path of an import against the file that imports it and the
//! root of its project.
//!
//! The library never touches the file system. What the resolver needs to know
//! of it comes as a [`FileSystem`] value that the host fills in beforehand:
//! which of the paths in question exist, and what their canonical forms are.

use vstd::prelude::*;
use crate::assoc;
use crate::text::{copy_text, owned_text, same_text, texts};

verus! {

/// Whether `std::path::Path::is_absolute` holds of the path `path`.
pub uninterp spec fn path_is_absolute(path: Seq<char>) -> bool;

/// What `std::path::Path::ancestors` yields for the path `path`: the path
/// itself, then its parent, the parent's parent and so on.
pub uninterp spec fn path_ancestors(path: Seq<char>) -> Seq<Seq<char>>;

/// What `std::path::Path::join` makes of the path `base` and the path
/// `path`.
pub uninterp spec fn path_join(base: Seq<char>, path: Seq<char>) -> Seq<char>;

/// What `std::path::Path::file_name` returns for the path `path`.
pub uninterp spec fn path_file_name(path: Seq<char>) -> Option<Seq<char>>;

/// Calls `std::path::Path::is_absolute` on `path`; the result is named
/// [`path_is_absolute`].
#[verifier::external_body]
fn is_absolute(path: &str) -> (r: bool)
    ensures
        r == path_is_absolute(path@),
{
    std::path::Path::new(path).is_absolute()
}

/// Calls `std::path::Path::ancestors` on `path` and collects what it yields;
/// the result is named [`path_ancestors`]. The iterator always yields the
/// path itself first.
#[verifier::external_body]
pub(crate) fn ancestors(path: &str) -> (r: Vec<String>)
    ensures
        texts(r@) == path_ancestors(path@),
        r.len() >= 1,
        r[0]@ == path@,
{
    let mut out = Vec::new();
    for ancestor in std::path::Path::new(path).ancestors() {
        out.push(ancestor.to_string_lossy().into_owned());
    }
    out
}

/// Calls `std::path::Path::join` on `base` with `path`; the result is named
/// [`path_join`].
#[verifier::external_body]
pub(crate) fn join(base: &str, path: &str) -> (r: String)
    ensures
        r@ == path_join(base@, path@),
{
    std::path::Path::new(base).join(path).to_string_lossy().into_owned()
}

/// Calls `std::path::Path::file_name` on `path`; the result is named
/// [`path_file_name`].
#[verifier::external_body]
fn file_name(path: &str) -> (r: Option<String>)
    ensures
        match r {
            Some(n) => path_file_name(path@) == Some(n@),
            None => path_file_name(path@) is None,
        },
{
    match std::path::Path::new(path).file_name() {
        Some(name) => Some(name.to_string_lossy().into_owned()),
        None => None,
    }
}

/// What the host found on the file system: the canonical form of each path
/// that has one, and the paths that exist.
#[derive(Debug, Clone, PartialEq, Eq, Default)]
pub struct FileSystem {
    pub canonical: Vec<(String, String)>,
    pub existing: Vec<String>,
}

/// What a [`FileSystem`] stands for.
pub struct FileSystemView {
    pub canonical: Seq<(Seq<char>, Seq<char>)>,
    pub existing: Seq<Seq<char>>,
}

/// What each entry of a list stands for.
pub open spec fn canonical_views(entries: Seq<(String, String)>) -> Seq<(Seq<char>, Seq<char>)> {
    entries.map_values(|e: (String, String)| (e.0@, e.1@))
}

impl View for FileSystem {
    type V = FileSystemView;

    open spec fn view(&self) -> FileSystemView {
        FileSystemView {
            canonical: canonical_views(self.canonical@),
            existing: texts(self.existing@),
        }
    }
}

/// A file system on which nothing was found.
pub open spec fn nothing_found() -> FileSystemView {
    FileSystemView { canonical: Seq::empty(), existing: Seq::empty() }
}

/// The canonical form of `path`, if the file system gave it one.
pub open spec fn canonical_of(fs: FileSystemView, path: Seq<char>) -> Option<Seq<char>> {
    assoc::get(fs.canonical, path)
}

/// Whether `path` exists on the file system.
pub open spec fn exists_on(fs: FileSystemView, path: Seq<char>) -> bool {
    fs.existing.contains(path)
}

/// The path `.ato/modules` below `root`, followed by `import`.
pub open spec fn import_below_modules(root: Seq<char>, import: Seq<char>) -> Seq<char> {
    path_join(path_join(path_join(root, ".ato"@), "modules"@), import)
}

/// The import resolved against the project root `root`: relative to the
/// root, or else relative to `.ato/modules` below it.
pub open spec fn in_project(fs: FileSystemView, root: Seq<char>, import: Seq<char>) -> Option<
    Seq<char>,
> {
    match canonical_of(fs, path_join(root, import)) {
        Some(p) => Some(p),
        None => canonical_of(fs, import_below_modules(root, import)),
    }
}

/// The import resolved against the parent of the nearest directory named
/// `.ato` among `dirs[at..]`.
pub open spec fn by_dot_ato(
    fs: FileSystemView,
    dirs: Seq<Seq<char>>,
    import: Seq<char>,
    at: int,
) -> Option<Seq<char>>
    decreases dirs.len() - at,
{
    if at < 0 || at >= dirs.len() {
        None
    } else if path_file_name(dirs[at]) == Some(".ato"@) {
        if at + 1 < dirs.len() {
            in_project(fs, dirs[at + 1], import)
        } else {
            None
        }
    } else {
        by_dot_ato(fs, dirs, import, at + 1)
    }
}

/// The import resolved against the nearest directory among `dirs[at..]`
/// that holds the project marker `ato.yaml`.
pub open spec fn by_marker(
    fs: FileSystemView,
    dirs: Seq<Seq<char>>,
    import: Seq<char>,
    at: int,
) -> Option<Seq<char>>
    decreases dirs.len() - at,
{
    if at < 0 || at >= dirs.len() {
        None
    } else if exists_on(fs, path_join(dirs[at], "ato.yaml"@)) {
        in_project(fs, dirs[at], import)
    } else {
        by_marker(fs, dirs, import, at + 1)
    }
}

/// The path that the import `import` in the file `ctx` resolves to.
///
/// An absolute import is itself. Any other is tried relative to the
/// directory of `ctx`; then against the project root that a directory named
/// `.ato` above `ctx` marks; then against the project root that the marker
/// file marks. The first try that has a canonical form wins.
pub open spec fn resolved(fs: FileSystemView, ctx: Seq<char>, import: Seq<char>) -> Option<
    Seq<char>,
> {
    if path_is_absolute(import) {
        Some(import)
    } else {
        let dirs = path_ancestors(ctx).skip(1);
        let beside = if dirs.len() > 0 {
            canonical_of(fs, path_join(dirs[0], import))
        } else {
            None
        };
        match beside {
            Some(p) => Some(p),
            None => match by_dot_ato(fs, dirs, import, 0) {
                Some(p) => Some(p),
                None => by_marker(fs, dirs, import, 0),
            },
        }
    }
}

/// The paths that resolving `import` from a file with the directories
/// `dirs[at..]` above it may ask the file system about: below each
/// directory the import itself, the import below `.ato/modules`, and the
/// project marker.
pub open spec fn probes(dirs: Seq<Seq<char>>, import: Seq<char>, at: int) -> Seq<Seq<char>>
    decreases dirs.len() - at,
{
    if at < 0 || at >= dirs.len() {
        Seq::empty()
    } else {
        seq![
            path_join(dirs[at], import),
            import_below_modules(dirs[at], import),
            path_join(dirs[at], "ato.yaml"@),
        ] + probes(dirs, import, at + 1)
    }
}

impl FileSystem {
    /// A file system on which nothing was found.
    pub fn new() -> (r: Self)
        ensures
            r@ == nothing_found(),
    {
        let r = FileSystem { canonical: Vec::new(), existing: Vec::new() };
        assert(r@.canonical =~= Seq::empty());
        assert(r@.existing =~= Seq::empty());
        r
    }

    /// The canonical form of `path`, if the file system gave it one.
    pub fn canonicalize(&self, path: &String) -> (r: Option<String>)
        ensures
            match r {
                Some(p) => canonical_of(self@, path@) == Some(p@),
                None => canonical_of(self@, path@) is None,
            },
    {
        let mut i: usize = 0;
        while i < self.canonical.len()
            invariant
                i <= self.canonical.len(),
                forall|j: int| 0 <= j < i ==> (#[trigger] self@.canonical[j]).0 != path@,
            decreases self.canonical.len() - i,
        {
            if same_text(&self.canonical[i].0, path) {
                proof {
                    assoc::lemma_find_is(self@.canonical, path@, i as int);
                }
                return Some(copy_text(&self.canonical[i].1));
            }
            i += 1;
        }
        proof {
            assoc::lemma_find_is(self@.canonical, path@, i as int);
        }
        None
    }

    /// Whether `path` exists.
    pub fn has_path(&self, path: &String) -> (r: bool)
        ensures
            r == exists_on(self@, path@),
    {
        let mut i: usize = 0;
        while i < self.existing.len()
            invariant
                i <= self.existing.len(),
                forall|j: int| 0 <= j < i ==> self@.existing[j] != path@,
            decreases self.existing.len() - i,
        {
            if same_text(&self.existing[i], path) {
                assert(self@.existing[i as int] == path@);
                return true;
            }
            i += 1;
        }
        false
    }

    /// The import resolved against the project root `root`.
    fn resolve_in_project(&self, root: &String, import: &str) -> (r: Option<String>)
        ensures
            match r {
                Some(p) => in_project(self@, root@, import@) == Some(p@),
                None => in_project(self@, root@, import@) is None,
            },
    {
        let direct = join(root.as_str(), import);
        match self.canonicalize(&direct) {
            Some(p) => Some(p),
            None => {
                let modules = join(join(join(root.as_str(), ".ato").as_str(), "modules").as_str(), import);
                self.canonicalize(&modules)
            },
        }
    }
}

/// Resolves the import `import_path` in the file `ctx_path`: relative to the
/// file's directory, then to the project root, then to `.ato/modules` in the
/// project root. `None` where no try has a canonical form.
pub fn resolve_import_path(fs: &FileSystem, ctx_path: &str, import_path: &str) -> (r: Option<
    String,
>)
    ensures
        match r {
            Some(p) => resolved(fs@, ctx_path@, import_path@) == Some(p@),
            None => resolved(fs@, ctx_path@, import_path@) is None,
        },
{
    if is_absolute(import_path) {
        return Some(owned_text(import_path));
    }
    let all = ancestors(ctx_path);
    let ghost dirs = path_ancestors(ctx_path@).skip(1);
    assert(dirs.len() == all.len() - 1);
    assert forall|k: int| 0 <= k < dirs.len() implies #[trigger] dirs[k] == all[k + 1]@ by {
        assert(texts(all@)[k + 1] == all[k + 1]@);
    }
    if all.len() > 1 {
        let beside = join(all[1].as_str(), import_path);
        match fs.canonicalize(&beside) {
            Some(p) => {
                return Some(p);
            },
            None => {},
        }
    }
    let dot_ato = owned_text(".ato");
    let mut i: usize = 1;
    let mut found: Option<String> = None;
    let mut done = false;
    while i < all.len() && !done
        invariant
            1 <= i <= all.len(),
            dirs.len() == all.len() - 1,
            dot_ato@ == ".ato"@,
            forall|k: int| 0 <= k < dirs.len() ==> #[trigger] dirs[k] == all[k + 1]@,
            !done ==> by_dot_ato(fs@, dirs, import_path@, 0) == by_dot_ato(
                fs@,
                dirs,
                import_path@,
                i - 1,
            ),
            !done ==> found is None,
            done ==> match found {
                Some(p) => by_dot_ato(fs@, dirs, import_path@, 0) == Some(p@),
                None => by_dot_ato(fs@, dirs, import_path@, 0) is None,
            },
        decreases all.len() - i + if done { 0int } else { 1int },
    {
        assert(dirs[i - 1] == all[i as int]@);
        let is_dot_ato = match file_name(all[i].as_str()) {
            Some(n) => same_text(&n, &dot_ato),
            None => false,
        };
        if is_dot_ato {
            if i + 1 < all.len() {
                assert(dirs[i as int] == all[i + 1]@);
                found = fs.resolve_in_project(&all[i + 1], import_path);
            }
            done = true;
        } else {
            i += 1;
        }
    }
    match found {
        Some(p) => {
            return Some(p);
        },
        None => {},
    }
    let marker = owned_text("ato.yaml");
    let mut j: usize = 1;
    assert(resolved(fs@, ctx_path@, import_path@) == by_marker(fs@, dirs, import_path@, 0));
    while j < all.len()
        invariant
            1 <= j <= all.len(),
            resolved(fs@, ctx_path@, import_path@) == by_marker(fs@, dirs, import_path@, 0),
            dirs.len() == all.len() - 1,
            marker@ == "ato.yaml"@,
            forall|k: int| 0 <= k < dirs.len() ==> #[trigger] dirs[k] == all[k + 1]@,
            by_marker(fs@, dirs, import_path@, 0) == by_marker(fs@, dirs, import_path@, j - 1),
        decreases all.len() - j,
    {
        assert(dirs[j - 1] == all[j as int]@);
        let candidate = join(all[j].as_str(), marker.as_str());
        if fs.has_path(&candidate) {
            return fs.resolve_in_project(&all[j], import_path);
        }
        j += 1;
    }
    None
}

/// The paths that resolving `import_path` in the file `ctx_path` may ask the
/// file system about. A host that fills in a [`FileSystem`] with what it
/// finds for each of them has told the resolver all it can ask.
pub fn import_probes(ctx_path: &str, import_path: &str) -> (r: Vec<String>)
    ensures
        texts(r@) == probes(path_ancestors(ctx_path@).skip(1), import_path@, 0),
{
    let all = ancestors(ctx_path);
    let ghost dirs = path_ancestors(ctx_path@).skip(1);
    assert(dirs.len() == all.len() - 1);
    assert forall|k: int| 0 <= k < dirs.len() implies #[trigger] dirs[k] == all[k + 1]@ by {
        assert(texts(all@)[k + 1] == all[k + 1]@);
    }
    let mut out: Vec<String> = Vec::new();
    let mut i: usize = all.len();
    assert(texts(out@) =~= probes(dirs, import_path@, dirs.len() as int));
    while i > 1
        invariant
            1 <= i <= all.len(),
            dirs.len() == all.len() - 1,
            forall|k: int| 0 <= k < dirs.len() ==> #[trigger] dirs[k] == all[k + 1]@,
            texts(out@) == probes(dirs, import_path@, i - 1),
        decreases i,
    {
        i -= 1;
        assert(dirs[i - 1] == all[i as int]@);
        let ghost before = texts(out@);
        let dir = all[i].as_str();
        out.insert(0, join(dir, "ato.yaml"));
        out.insert(0, join(join(join(dir, ".ato").as_str(), "modules").as_str(), import_path));
        out.insert(0, join(dir, import_path));
        assert(texts(out@) =~= seq![
            path_join(dirs[i - 1], import_path@),
            import_below_modules(dirs[i - 1], import_path@),
            path_join(dirs[i - 1], "ato.yaml"@),
        ] + before);
    }
    out
}

/// Whether two file systems give the same answers about each of `paths`.
pub open spec fn agree_on(a: FileSystemView, b: FileSystemView, paths: Seq<Seq<char>>) -> bool {
    forall|k: int|
        0 <= k < paths.len() ==> canonical_of(a, #[trigger] paths[k]) == canonical_of(b, paths[k])
            && exists_on(a, paths[k]) == exists_on(b, paths[k])
}

/// The probes for the directories from `at` on hold the three probes of
/// each of those directories.
proof fn lemma_probes_hold(dirs: Seq<Seq<char>>, import: Seq<char>, at: int, k: int)
    requires
        0 <= at <= k < dirs.len(),
    ensures
        probes(dirs, import, at).len() == 3 * (dirs.len() - at),
        probes(dirs, import, at)[3 * (k - at)] == path_join(dirs[k], import),
        probes(dirs, import, at)[3 * (k - at) + 1] == import_below_modules(dirs[k], import),
        probes(dirs, import, at)[3 * (k - at) + 2] == path_join(dirs[k], "ato.yaml"@),
    decreases dirs.len() - at,
{
    lemma_probes_len(dirs, import, at + 1);
    if at < k {
        lemma_probes_hold(dirs, import, at + 1, k);
    }
}

/// There are three probes for each directory.
proof fn lemma_probes_len(dirs: Seq<Seq<char>>, import: Seq<char>, at: int)
    requires
        0 <= at <= dirs.len(),
    ensures
        probes(dirs, import, at).len() == 3 * (dirs.len() - at),
    decreases dirs.len() - at,
{
    if at < dirs.len() {
        lemma_probes_len(dirs, import, at + 1);
    }
}

/// File systems that agree on the probes resolve an import against each
/// directory alike, and see the project marker in it alike.
proof fn lemma_agree_at(
    a: FileSystemView,
    b: FileSystemView,
    dirs: Seq<Seq<char>>,
    import: Seq<char>,
    k: int,
)
    requires
        0 <= k < dirs.len(),
        agree_on(a, b, probes(dirs, import, 0)),
    ensures
        canonical_of(a, path_join(dirs[k], import)) == canonical_of(b, path_join(dirs[k], import)),
        in_project(a, dirs[k], import) == in_project(b, dirs[k], import),
        exists_on(a, path_join(dirs[k], "ato.yaml"@)) == exists_on(
            b,
            path_join(dirs[k], "ato.yaml"@),
        ),
{
    lemma_probes_hold(dirs, import, 0, k);
    let all = probes(dirs, import, 0);
    assert(canonical_of(a, all[3 * k]) == canonical_of(b, all[3 * k]));
    assert(canonical_of(a, all[3 * k + 1]) == canonical_of(b, all[3 * k + 1]));
    assert(exists_on(a, all[3 * k + 2]) == exists_on(b, all[3 * k + 2]));
}

/// File systems that agree on the probes find the same below a directory
/// named `.ato`.
proof fn lemma_by_dot_ato(
    a: FileSystemView,
    b: FileSystemView,
    dirs: Seq<Seq<char>>,
    import: Seq<char>,
    at: int,
)
    requires
        0 <= at,
        agree_on(a, b, probes(dirs, import, 0)),
    ensures
        by_dot_ato(a, dirs, import, at) == by_dot_ato(b, dirs, import, at),
    decreases dirs.len() - at,
{
    if at < dirs.len() {
        if path_file_name(dirs[at]) == Some(".ato"@) {
            if at + 1 < dirs.len() {
                lemma_agree_at(a, b, dirs, import, at + 1);
            }
        } else {
            lemma_by_dot_ato(a, b, dirs, import, at + 1);
        }
    }
}

/// File systems that agree on the probes find the same by the project
/// marker.
proof fn lemma_by_marker(
    a: FileSystemView,
    b: FileSystemView,
    dirs: Seq<Seq<char>>,
    import: Seq<char>,
    at: int,
)
    requires
        0 <= at,
        agree_on(a, b, probes(dirs, import, 0)),
    ensures
        by_marker(a, dirs, import, at) == by_marker(b, dirs, import, at),
    decreases dirs.len() - at,
{
    if at < dirs.len() {
        lemma_agree_at(a, b, dirs, import, at);
        if !exists_on(a, path_join(dirs[at], "ato.yaml"@)) {
            lemma_by_marker(a, b, dirs, import, at + 1);
        }
    }
}

/// The probes suffice. Two file systems that give the same answers about
/// every probe of an import resolve the import to the same path: what the
/// host found for the probes is all that resolution depends on.
pub proof fn lemma_probes_suffice(
    a: FileSystemView,
    b: FileSystemView,
    ctx: Seq<char>,
    import: Seq<char>,
)
    requires
        agree_on(a, b, probes(path_ancestors(ctx).skip(1), import, 0)),
    ensures
        resolved(a, ctx, import) == resolved(b, ctx, import),
{
    let dirs = path_ancestors(ctx).skip(1);
    if dirs.len() > 0 {
        lemma_agree_at(a, b, dirs, import, 0);
    }
    lemma_by_dot_ato(a, b, dirs, import, 0);
    lemma_by_marker(a, b, dirs, import, 0);
}

} // verus!
