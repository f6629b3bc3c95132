//! Correlating component instances with the reference designators that a
//! generated netlist assigns to them.
//!
//! The netlist of a project lies below the project root, which the project
//! marker file marks. The host reads the netlists and tells what exists; the
//! library finds the designator of each component.

use vstd::prelude::*;
use crate::assoc;
use crate::instance::{InstanceKind, InstanceRef, InstanceRefView, InstanceView};
use crate::resolver::{
    ancestors, exists_on, join, path_ancestors, path_join, FileSystem, FileSystemView,
};
use crate::store::{EvaluatorState, StoreView};
use crate::text::{concat_text, copy_text, joined, owned_text, same_text, texts};

verus! {

/// The pattern that finds a component of a netlist: its reference designator
/// in the first group, the names of its sheet path in the second.
pub const COMPONENT_PATTERN: &'static str =
    "(?s)\\(comp\\s+\\(ref\\s+\"([^\"]+)\"\\)(?:(?!\\(comp\\s+).)*?sheetpath\\s+\\(names\\s+\"([^\"]+)\"\\)";

/// For each match of the regular expression `pattern` in `text`, in order,
/// the texts of its first and its second group, as the crate `fancy_regex`
/// finds them; `None` where the pattern does not compile, the search gives
/// up, or a match lacks one of the groups.
pub uninterp spec fn regex_pairs(pattern: Seq<char>, text: Seq<char>) -> Option<
    Seq<(Seq<char>, Seq<char>)>,
>;

/// What each pair of a list stands for.
pub open spec fn pair_views(pairs: Seq<(String, String)>) -> Seq<(Seq<char>, Seq<char>)> {
    pairs.map_values(|p: (String, String)| (p.0@, p.1@))
}

/// Compiles `pattern` with `fancy_regex::Regex::new`, walks the matches that
/// `Regex::captures_iter` finds in `text`, and collects the texts of groups
/// one and two of each; the result is named [`regex_pairs`].
#[verifier::external_body]
fn captured_pairs(pattern: &str, text: &str) -> (r: Option<Vec<(String, String)>>)
    ensures
        match r {
            Some(pairs) => regex_pairs(pattern@, text@) == Some(pair_views(pairs@)),
            None => regex_pairs(pattern@, text@) is None,
        },
{
    let re = fancy_regex::Regex::new(pattern).ok()?;
    let mut out = Vec::new();
    for found in re.captures_iter(text) {
        let groups = found.ok()?;
        out.push((groups.get(1)?.as_str().to_string(), groups.get(2)?.as_str().to_string()));
    }
    Some(out)
}

/// The sheet path under which a netlist lists the instance `r`:
/// `file:Module::a.b.c`.
pub open spec fn sheet_path_text(r: InstanceRefView) -> Seq<char> {
    r.module.source_path + ":"@ + r.module.module_name + "::"@ + joined(r.path, "."@)
}

/// The designator that the last of `pairs[..upto]` with the sheet path
/// `sheet` gives; each pair is a designator and a sheet path.
pub open spec fn last_designator(
    pairs: Seq<(Seq<char>, Seq<char>)>,
    sheet: Seq<char>,
    upto: int,
) -> Option<Seq<char>>
    decreases upto,
{
    if upto <= 0 {
        None
    } else if pairs[upto - 1].1 == sheet {
        Some(pairs[upto - 1].0)
    } else {
        last_designator(pairs, sheet, upto - 1)
    }
}

/// The first of `dirs[at..]` that holds the project marker `ato.yaml`.
pub open spec fn root_above(fs: FileSystemView, dirs: Seq<Seq<char>>, at: int) -> Option<
    Seq<char>,
>
    decreases dirs.len() - at,
{
    if at < 0 || at >= dirs.len() {
        None
    } else if exists_on(fs, path_join(dirs[at], "ato.yaml"@)) {
        Some(dirs[at])
    } else {
        root_above(fs, dirs, at + 1)
    }
}

/// The path of the netlist of the project at `root`.
pub open spec fn netlist_path(root: Seq<char>) -> Seq<char> {
    path_join(path_join(root, "build"@), "default.net"@)
}

/// The reference designator of the instance `r`: what the netlist of its
/// project lists under its sheet path. None where the project has no root,
/// the netlist does not exist or was not read, or lists no such sheet path.
pub open spec fn designator_of(
    fs: FileSystemView,
    netlists: Seq<(Seq<char>, Seq<char>)>,
    r: InstanceRefView,
) -> Option<Seq<char>> {
    match root_above(fs, path_ancestors(r.module.source_path).skip(1), 0) {
        None => None,
        Some(root) => {
            if !exists_on(fs, netlist_path(root)) {
                None
            } else {
                match assoc::get(netlists, netlist_path(root)) {
                    None => None,
                    Some(contents) => match regex_pairs(COMPONENT_PATTERN@, contents) {
                        None => None,
                        Some(pairs) => last_designator(
                            pairs,
                            sheet_path_text(r),
                            pairs.len() as int,
                        ),
                    },
                }
            }
        },
    }
}

/// The entry with the reference designator of its instance stamped on, if
/// the instance is a component and has one.
pub open spec fn stamped_entry(
    fs: FileSystemView,
    netlists: Seq<(Seq<char>, Seq<char>)>,
    entry: (InstanceRefView, InstanceView),
) -> (InstanceRefView, InstanceView) {
    if entry.1.kind == InstanceKind::Component {
        match designator_of(fs, netlists, entry.0) {
            Some(d) => (entry.0, InstanceView { reference_designator: Some(d), ..entry.1 }),
            None => entry,
        }
    } else {
        entry
    }
}

/// The store with the reference designator stamped on every component that
/// has one.
pub open spec fn stamped(
    store: StoreView,
    fs: FileSystemView,
    netlists: Seq<(Seq<char>, Seq<char>)>,
) -> StoreView {
    store.map_values(|e: (InstanceRefView, InstanceView)| stamped_entry(fs, netlists, e))
}

/// The paths that finding the netlist for a source file with the
/// directories `dirs[at..]` above it may ask about: in each directory the
/// project marker and the netlist.
pub open spec fn netlist_probes_of(dirs: Seq<Seq<char>>, at: int) -> Seq<Seq<char>>
    decreases dirs.len() - at,
{
    if at < 0 || at >= dirs.len() {
        Seq::empty()
    } else {
        netlist_probes_of(dirs, at + 1).push(netlist_path(dirs[at])).push(
            path_join(dirs[at], "ato.yaml"@),
        )
    }
}

/// The sheet path under which a netlist lists the instance `r`.
pub fn sheet_path(r: &InstanceRef) -> (out: String)
    ensures
        out@ == sheet_path_text(r@),
{
    let mut out = concat_text(
        concat_text(
            concat_text(copy_text(&r.module.source_path), ":"),
            r.module.module_name.as_str(),
        ),
        "::",
    );
    let ghost head = out@;
    let mut i: usize = 0;
    assert(joined(r@.path.take(0), "."@) =~= Seq::<char>::empty());
    assert(head + Seq::<char>::empty() =~= head);
    while i < r.instance_path.len()
        invariant
            i <= r.instance_path.len(),
            head == r@.module.source_path + ":"@ + r@.module.module_name + "::"@,
            out@ == head + joined(r@.path.take(i as int), "."@),
        decreases r.instance_path.len() - i,
    {
        proof {
            let next = r@.path.take(i + 1);
            assert(next.drop_last() =~= r@.path.take(i as int));
            assert(next.last() == r.instance_path[i as int]@);
            if i == 0 {
                assert(joined(r@.path.take(0), "."@) =~= Seq::<char>::empty());
                assert(head + r.instance_path[0]@ =~= head + Seq::<char>::empty()
                    + r.instance_path[0]@);
            }
        }
        if i > 0 {
            out = concat_text(out, ".");
        }
        out = concat_text(out, r.instance_path[i].as_str());
        proof {
            let next = r@.path.take(i + 1);
            if i > 0 {
                assert(out@ =~= head + (joined(r@.path.take(i as int), "."@) + "."@
                    + next.last()));
            }
        }
        i += 1;
    }
    assert(r@.path.take(r.instance_path.len() as int) =~= r@.path);
    out
}

/// The designator that the last of `pairs` with the sheet path `sheet`
/// gives; each pair is a designator and a sheet path.
pub fn designator_for(pairs: &Vec<(String, String)>, sheet: &String) -> (r: Option<String>)
    ensures
        match r {
            Some(d) => last_designator(pair_views(pairs@), sheet@, pairs.len() as int) == Some(
                d@,
            ),
            None => last_designator(pair_views(pairs@), sheet@, pairs.len() as int) is None,
        },
{
    let mut i: usize = pairs.len();
    while i > 0
        invariant
            i <= pairs.len(),
            last_designator(pair_views(pairs@), sheet@, pairs.len() as int) == last_designator(
                pair_views(pairs@),
                sheet@,
                i as int,
            ),
        decreases i,
    {
        i -= 1;
        if same_text(&pairs[i].1, sheet) {
            return Some(copy_text(&pairs[i].0));
        }
    }
    None
}

/// The first directory above the file `source_path` that holds the project
/// marker.
pub fn project_root(fs: &FileSystem, source_path: &str) -> (r: Option<String>)
    ensures
        match r {
            Some(d) => root_above(fs@, path_ancestors(source_path@).skip(1), 0) == Some(d@),
            None => root_above(fs@, path_ancestors(source_path@).skip(1), 0) is None,
        },
{
    let all = ancestors(source_path);
    let ghost dirs = path_ancestors(source_path@).skip(1);
    assert(dirs.len() == all.len() - 1);
    assert forall|k: int| 0 <= k < dirs.len() implies #[trigger] dirs[k] == all[k + 1]@ by {
        assert(texts(all@)[k + 1] == all[k + 1]@);
    }
    let mut i: usize = 1;
    while i < all.len()
        invariant
            1 <= i <= all.len(),
            dirs.len() == all.len() - 1,
            forall|k: int| 0 <= k < dirs.len() ==> #[trigger] dirs[k] == all[k + 1]@,
            dirs == path_ancestors(source_path@).skip(1),
            root_above(fs@, dirs, 0) == root_above(fs@, dirs, i - 1),
        decreases all.len() - i,
    {
        assert(dirs[i - 1] == all[i as int]@);
        let marker = join(all[i].as_str(), "ato.yaml");
        if fs.has_path(&marker) {
            return Some(copy_text(&all[i]));
        }
        i += 1;
    }
    None
}

/// The contents read from the netlist at `path`, if it was read.
fn netlist_contents<'a>(netlists: &'a Vec<(String, String)>, path: &String) -> (r: Option<
    &'a String,
>)
    ensures
        match r {
            Some(c) => assoc::get(pair_views(netlists@), path@) == Some(c@),
            None => assoc::get(pair_views(netlists@), path@) is None,
        },
{
    let mut i: usize = 0;
    while i < netlists.len()
        invariant
            i <= netlists.len(),
            forall|j: int| 0 <= j < i ==> (#[trigger] pair_views(netlists@)[j]).0 != path@,
        decreases netlists.len() - i,
    {
        if same_text(&netlists[i].0, path) {
            proof {
                assoc::lemma_find_is(pair_views(netlists@), path@, i as int);
            }
            return Some(&netlists[i].1);
        }
        i += 1;
    }
    proof {
        assoc::lemma_find_is(pair_views(netlists@), path@, i as int);
    }
    None
}

/// The reference designator of the instance `r`, from the netlists that
/// were read (`netlists` pairs each path with the contents read from it).
pub fn find_designator(fs: &FileSystem, netlists: &Vec<(String, String)>, r: &InstanceRef) -> (out:
    Option<String>)
    ensures
        match out {
            Some(d) => designator_of(fs@, pair_views(netlists@), r@) == Some(d@),
            None => designator_of(fs@, pair_views(netlists@), r@) is None,
        },
{
    let root = match project_root(fs, r.module.source_path.as_str()) {
        Some(d) => d,
        None => {
            return None;
        },
    };
    let netlist = join(join(root.as_str(), "build").as_str(), "default.net");
    if !fs.has_path(&netlist) {
        return None;
    }
    let contents = match netlist_contents(netlists, &netlist) {
        Some(c) => c,
        None => {
            return None;
        },
    };
    match captured_pairs(COMPONENT_PATTERN, contents.as_str()) {
        Some(pairs) => designator_for(&pairs, &sheet_path(r)),
        None => None,
    }
}

/// The paths that finding the netlist for the source file `source_path` may
/// ask about: the project marker and the netlist in each directory above
/// the file.
pub fn netlist_probes(source_path: &str) -> (r: Vec<String>)
    ensures
        texts(r@) == netlist_probes_of(path_ancestors(source_path@).skip(1), 0),
{
    let all = ancestors(source_path);
    let ghost dirs = path_ancestors(source_path@).skip(1);
    assert(dirs.len() == all.len() - 1);
    assert forall|k: int| 0 <= k < dirs.len() implies #[trigger] dirs[k] == all[k + 1]@ by {
        assert(texts(all@)[k + 1] == all[k + 1]@);
    }
    let mut out: Vec<String> = Vec::new();
    let mut i: usize = all.len();
    assert(texts(out@) =~= netlist_probes_of(dirs, dirs.len() as int));
    while i > 1
        invariant
            1 <= i <= all.len(),
            dirs.len() == all.len() - 1,
            forall|k: int| 0 <= k < dirs.len() ==> #[trigger] dirs[k] == all[k + 1]@,
            texts(out@) == netlist_probes_of(dirs, i - 1),
        decreases i,
    {
        i -= 1;
        assert(dirs[i - 1] == all[i as int]@);
        let ghost before = texts(out@);
        let dir = all[i].as_str();
        out.push(join(join(dir, "build").as_str(), "default.net"));
        out.push(join(dir, "ato.yaml"));
        assert(texts(out@) =~= before.push(netlist_path(dirs[i - 1])).push(
            path_join(dirs[i - 1], "ato.yaml"@),
        ));
    }
    out
}

impl EvaluatorState {
    /// Stamps on every component the reference designator that the netlist
    /// of its project lists for it. A component without one stays as it is.
    pub fn resolve_reference_designators(
        &mut self,
        fs: &FileSystem,
        netlists: &Vec<(String, String)>,
    )
        ensures
            final(self)@ == stamped(old(self)@, fs@, pair_views(netlists@)),
    {
        let mut i: usize = 0;
        while i < self.len()
            invariant
                i <= self@.len(),
                self@.len() == old(self)@.len(),
                forall|k: int|
                    0 <= k < i ==> self@[k] == stamped_entry(
                        fs@,
                        pair_views(netlists@),
                        #[trigger] old(self)@[k],
                    ),
                forall|k: int| i <= k < self@.len() ==> self@[k] == #[trigger] old(self)@[k],
            decreases self@.len() - i,
        {
            let found = {
                let entry = self.entry(i);
                if matches!(entry.1.kind, InstanceKind::Component) {
                    find_designator(fs, netlists, entry.0)
                } else {
                    None
                }
            };
            match found {
                Some(d) => {
                    self.set_reference_designator(i, d);
                },
                None => {},
            }
            i += 1;
        }
        assert(self@ =~= stamped(old(self)@, fs@, pair_views(netlists@)));
    }
}

} // verus!
