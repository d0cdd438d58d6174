//! Paths as sequences of components: substituting one tree root for
//! another, pairing source files with their counterparts, and the chain of
//! directories that must exist before a file can be written.

use vstd::prelude::*;

verus! {

/// A path held as its components, first to last (`/`, `tmp`, `a.png`).
#[derive(Clone, Debug)]
pub struct FilePath {
    pub parts: Vec<String>,
}

/// A path in the mathematical model: one character sequence per component.
pub type PathModel = Seq<Seq<char>>;

impl View for FilePath {
    type V = PathModel;

    open spec fn view(&self) -> PathModel {
        self.parts@.map_values(|s: String| s@)
    }
}

/// Whether `prefix` is a leading run of components of `path`.
pub open spec fn has_prefix(path: PathModel, prefix: PathModel) -> bool {
    prefix.len() <= path.len() && path.subrange(0, prefix.len() as int) == prefix
}

/// `path` with its leading components `from` replaced by `to`; `None` when
/// `path` does not lie under `from`.
pub open spec fn rebased(path: PathModel, from: PathModel, to: PathModel) -> Option<PathModel> {
    if has_prefix(path, from) {
        Some(to + path.subrange(from.len() as int, path.len() as int))
    } else {
        None
    }
}

/// The directories that must exist before `file` can be written: every
/// proper leading run of its components, shortest first.
pub open spec fn ancestors(file: PathModel) -> Seq<PathModel> {
    if file.len() == 0 {
        Seq::empty()
    } else {
        Seq::new((file.len() - 1) as nat, |i: int| file.subrange(0, i + 1))
    }
}

/// The entries of `chain` whose flag in `present` is false, in order.
pub open spec fn missing(chain: Seq<PathModel>, present: Seq<bool>) -> Seq<PathModel>
    decreases chain.len(),
{
    if chain.len() == 0 {
        Seq::empty()
    } else {
        let rest = missing(chain.drop_last(), present.subrange(0, chain.len() - 1));
        if present[chain.len() - 1] {
            rest
        } else {
            rest.push(chain.last())
        }
    }
}

impl FilePath {
    /// A path from its components.
    pub fn new(parts: Vec<String>) -> (r: FilePath)
        ensures
            r.parts@ == parts@,
    {
        FilePath { parts }
    }

    /// Number of components.
    pub fn len(&self) -> (r: usize)
        ensures
            r == self@.len(),
    {
        self.parts.len()
    }

    /// A component-for-component copy.
    pub fn duplicate(&self) -> (r: FilePath)
        ensures
            r@ == self@,
    {
        let mut parts: Vec<String> = Vec::new();
        let mut i: usize = 0;
        while i < self.parts.len()
            invariant
                i <= self.parts@.len(),
                parts@.len() == i,
                forall|j: int| 0 <= j < i ==> #[trigger] parts@[j]@ == self.parts@[j]@,
            decreases self.parts@.len() - i,
        {
            parts.push(self.parts[i].clone());
            i = i + 1;
        }
        let r = FilePath { parts };
        assert(r@ =~= self@);
        r
    }

    /// The first `n` components.
    pub fn prefix(&self, n: usize) -> (r: FilePath)
        requires
            n <= self@.len(),
        ensures
            r@ == self@.subrange(0, n as int),
    {
        let mut parts: Vec<String> = Vec::new();
        let mut i: usize = 0;
        while i < n
            invariant
                n <= self.parts@.len(),
                i <= n,
                parts@.len() == i,
                forall|j: int| 0 <= j < i ==> #[trigger] parts@[j]@ == self.parts@[j]@,
            decreases n - i,
        {
            parts.push(self.parts[i].clone());
            i = i + 1;
        }
        let r = FilePath { parts };
        assert(r@ =~= self@.subrange(0, n as int));
        r
    }

    /// Whether `prefix` is a leading run of this path's components.
    pub fn starts_with(&self, prefix: &FilePath) -> (r: bool)
        ensures
            r == has_prefix(self@, prefix@),
    {
        if prefix.parts.len() > self.parts.len() {
            return false;
        }
        let mut i: usize = 0;
        while i < prefix.parts.len()
            invariant
                prefix.parts@.len() <= self.parts@.len(),
                i <= prefix.parts@.len(),
                forall|j: int| 0 <= j < i ==> #[trigger] self@[j] == prefix@[j],
            decreases prefix.parts@.len() - i,
        {
            if self.parts[i] != prefix.parts[i] {
                assert(self@.subrange(0, prefix@.len() as int)[i as int] != prefix@[i as int]);
                return false;
            }
            i = i + 1;
        }
        assert(self@.subrange(0, prefix@.len() as int) =~= prefix@);
        true
    }
}

/// Replaces the leading components `from` of `path` with `to`, component by
/// component; `None` when `path` does not lie under `from`.
pub fn substitute_prefix(path: &FilePath, from: &FilePath, to: &FilePath) -> (r: Option<FilePath>)
    ensures
        r is Some <==> has_prefix(path@, from@),
        r matches Some(p) ==> rebased(path@, from@, to@) == Some(p@),
{
    if !path.starts_with(from) {
        return None;
    }
    let mut parts: Vec<String> = Vec::new();
    let mut i: usize = 0;
    while i < to.parts.len()
        invariant
            i <= to.parts@.len(),
            parts@.len() == i,
            forall|j: int| 0 <= j < i ==> #[trigger] parts@[j]@ == to.parts@[j]@,
        decreases to.parts@.len() - i,
    {
        parts.push(to.parts[i].clone());
        i = i + 1;
    }
    let k = from.parts.len();
    let mut i: usize = k;
    while i < path.parts.len()
        invariant
            k == from.parts@.len(),
            k <= i <= path.parts@.len(),
            parts@.len() == to.parts@.len() + (i - k),
            forall|j: int| 0 <= j < to.parts@.len() ==> #[trigger] parts@[j]@ == to.parts@[j]@,
            forall|j: int|
                to.parts@.len() <= j < parts@.len() ==> #[trigger] parts@[j]@ == path.parts@[j
                    - to.parts@.len() + k]@,
        decreases path.parts@.len() - i,
    {
        parts.push(path.parts[i].clone());
        i = i + 1;
    }
    let r = FilePath { parts };
    assert(r@ =~= to@ + path@.subrange(k as int, path@.len() as int));
    Some(r)
}

/// The directories that must exist before `file` can be written, shortest
/// first; a file of one component needs none.
pub fn create_path(file: &FilePath) -> (r: Vec<FilePath>)
    ensures
        r@.len() == ancestors(file@).len(),
        forall|i: int| 0 <= i < r@.len() ==> #[trigger] r@[i]@ == ancestors(file@)[i],
{
    let mut chain: Vec<FilePath> = Vec::new();
    let n = file.len();
    if n == 0 {
        return chain;
    }
    let mut i: usize = 1;
    while i < n
        invariant
            n == file@.len(),
            1 <= i <= n,
            chain@.len() == i - 1,
            forall|j: int| 0 <= j < chain@.len() ==> #[trigger] chain@[j]@ == file@.subrange(0, j + 1),
        decreases n - i,
    {
        chain.push(file.prefix(i));
        i = i + 1;
    }
    chain
}

/// The directories of `chain` that do not exist yet and must be created, in
/// order, where `present[i]` tells whether `chain[i]` is already there.
pub fn create_dir_if_not_there(chain: &Vec<FilePath>, present: &Vec<bool>) -> (r: Vec<FilePath>)
    requires
        chain@.len() == present@.len(),
    ensures
        r@.map_values(|p: FilePath| p@) == missing(chain@.map_values(|p: FilePath| p@), present@),
{
    let mut out: Vec<FilePath> = Vec::new();
    let mut i: usize = 0;
    while i < chain.len()
        invariant
            chain@.len() == present@.len(),
            i <= chain@.len(),
            out@.map_values(|p: FilePath| p@) == missing(
                chain@.subrange(0, i as int).map_values(|p: FilePath| p@),
                present@.subrange(0, i as int),
            ),
        decreases chain@.len() - i,
    {
        proof {
            let next = chain@.subrange(0, i + 1).map_values(|p: FilePath| p@);
            assert(next.drop_last() =~= chain@.subrange(0, i as int).map_values(|p: FilePath| p@));
            assert(present@.subrange(0, i + 1).subrange(0, i as int) =~= present@.subrange(0, i as int));
        }
        if !present[i] {
            let d = chain[i].duplicate();
            out.push(d);
        }
        proof {
            let next = chain@.subrange(0, i + 1).map_values(|p: FilePath| p@);
            assert(out@.map_values(|p: FilePath| p@) =~= missing(next, present@.subrange(0, i + 1)));
        }
        i = i + 1;
    }
    assert(chain@.subrange(0, chain@.len() as int) =~= chain@);
    assert(present@.subrange(0, present@.len() as int) =~= present@);
    out
}

proof fn lemma_missing_members(chain: Seq<PathModel>, flags: Seq<bool>)
    requires
        chain.len() == flags.len(),
    ensures
        forall|d: PathModel|
            #[trigger] missing(chain, flags).contains(d) ==> exists|i: int|
                0 <= i < chain.len() && chain[i] == d && !flags[i],
        forall|i: int|
            0 <= i < chain.len() && !flags[i] ==> #[trigger] missing(chain, flags).contains(
                chain[i],
            ),
    decreases chain.len(),
{
    if chain.len() > 0 {
        let n = chain.len() - 1;
        let c0 = chain.drop_last();
        let f0 = flags.subrange(0, n as int);
        lemma_missing_members(c0, f0);
        let rest = missing(c0, f0);
        assert forall|d: PathModel| #[trigger] missing(chain, flags).contains(d) implies exists|i: int|
            0 <= i < chain.len() && chain[i] == d && !flags[i] by {
            if rest.contains(d) {
                let i = choose|i: int| 0 <= i < c0.len() && c0[i] == d && !f0[i];
                assert(chain[i] == d && !flags[i]);
            } else {
                assert(d == chain[n as int] && !flags[n as int]);
            }
        }
        assert forall|i: int| 0 <= i < chain.len() && !flags[i] implies #[trigger] missing(
            chain,
            flags,
        ).contains(chain[i]) by {
            if i < n {
                assert(c0[i] == chain[i] && f0[i] == flags[i]);
                assert(rest.contains(c0[i]));
                let j = choose|j: int| 0 <= j < rest.len() && rest[j] == chain[i];
                if !flags[n as int] {
                    assert(missing(chain, flags)[j] == chain[i]);
                }
            } else {
                assert(missing(chain, flags).last() == chain[i]);
            }
        }
    }
}

/// Whether each directory of `chain` is in the set `dirs`.
pub open spec fn presence(chain: Seq<PathModel>, dirs: Set<PathModel>) -> Seq<bool> {
    chain.map_values(|d: PathModel| dirs.contains(d))
}

/// Ensuring the directories for a file twice in a row, over a file system
/// whose directories are `dirs`: the first pass creates only directories that
/// are not there yet, after it every ancestor of the file exists, and the
/// second pass finds nothing to create, so it succeeds and changes nothing.
pub proof fn ensuring_directories_is_idempotent(dirs: Set<PathModel>, file: PathModel)
    ensures
        ({
            let chain = ancestors(file);
            let first = missing(chain, presence(chain, dirs));
            let after = dirs + first.to_set();
            &&& forall|d: PathModel| #[trigger] first.contains(d) ==> !dirs.contains(d)
            &&& forall|i: int| 0 <= i < chain.len() ==> after.contains(#[trigger] chain[i])
            &&& missing(chain, presence(chain, after)) == Seq::<PathModel>::empty()
        }),
{
    let chain = ancestors(file);
    let first = missing(chain, presence(chain, dirs));
    let after = dirs + first.to_set();
    lemma_missing_members(chain, presence(chain, dirs));
    lemma_missing_members(chain, presence(chain, after));
    assert forall|i: int| 0 <= i < chain.len() implies after.contains(#[trigger] chain[i]) by {
        if !dirs.contains(chain[i]) {
            assert(!presence(chain, dirs)[i]);
            assert(first.contains(chain[i]));
        }
    }
    let second = missing(chain, presence(chain, after));
    if second.len() > 0 {
        assert(second.contains(second[0]));
    }
}

/// The roots of the three trees of a run, and whether to report verbosely.
#[derive(Clone, Debug)]
pub struct Config {
    pub src_dir: FilePath,
    pub dest_dir: FilePath,
    pub diff_dir: FilePath,
    pub verbose: bool,
}

/// A source file and its counterpart in the destination tree.
#[derive(Clone, Debug)]
pub struct FilePair {
    pub source: FilePath,
    pub destination: FilePath,
}

impl View for FilePair {
    type V = (PathModel, PathModel);

    open spec fn view(&self) -> (PathModel, PathModel) {
        (self.source@, self.destination@)
    }
}

/// The views of a sequence of paths.
pub open spec fn path_views(v: Seq<FilePath>) -> Seq<PathModel> {
    v.map_values(|p: FilePath| p@)
}

/// The pairs found among the source `files`, in order: each file under `src`
/// whose counterpart under `dest` is present, as `present` tells.
pub open spec fn discovered(
    src: PathModel,
    dest: PathModel,
    files: Seq<PathModel>,
    present: Seq<bool>,
) -> Seq<(PathModel, PathModel)>
    decreases files.len(),
{
    if files.len() == 0 {
        Seq::empty()
    } else {
        let n = files.len() - 1;
        let rest = discovered(src, dest, files.drop_last(), present.subrange(0, n));
        match rebased(files[n], src, dest) {
            Some(d) => if present[n] {
                rest.push((files[n], d))
            } else {
                rest
            },
            None => rest,
        }
    }
}

/// The path that `source` is expected to have in the destination tree;
/// `None` when it does not lie under the source root.
pub fn counterpart(config: &Config, source: &FilePath) -> (r: Option<FilePath>)
    ensures
        r is Some <==> has_prefix(source@, config.src_dir@),
        r matches Some(p) ==> rebased(source@, config.src_dir@, config.dest_dir@) == Some(p@),
{
    substitute_prefix(source, &config.src_dir, &config.dest_dir)
}

/// The path of the difference image for a destination file; `None` when it
/// does not lie under the destination root.
pub fn diff_file_name(config: &Config, destination: &FilePath) -> (r: Option<FilePath>)
    ensures
        r is Some <==> has_prefix(destination@, config.dest_dir@),
        r matches Some(p) ==> rebased(destination@, config.dest_dir@, config.diff_dir@) == Some(
            p@,
        ),
{
    substitute_prefix(destination, &config.dest_dir, &config.diff_dir)
}

/// Pairs the regular files found under the source root, in the order found,
/// with their counterparts; `present[i]` tells whether the counterpart of
/// `files[i]` exists as a regular file.
pub fn find_all_files_to_load(config: &Config, files: &Vec<FilePath>, present: &Vec<bool>) -> (r:
    Vec<FilePair>)
    requires
        files@.len() == present@.len(),
    ensures
        r@.map_values(|p: FilePair| p@) == discovered(
            config.src_dir@,
            config.dest_dir@,
            path_views(files@),
            present@,
        ),
{
    let mut pairs: Vec<FilePair> = Vec::new();
    let mut i: usize = 0;
    while i < files.len()
        invariant
            files@.len() == present@.len(),
            i <= files@.len(),
            pairs@.map_values(|p: FilePair| p@) == discovered(
                config.src_dir@,
                config.dest_dir@,
                path_views(files@.subrange(0, i as int)),
                present@.subrange(0, i as int),
            ),
        decreases files@.len() - i,
    {
        proof {
            let next = path_views(files@.subrange(0, i + 1));
            assert(next.drop_last() =~= path_views(files@.subrange(0, i as int)));
            assert(present@.subrange(0, i + 1).subrange(0, i as int) =~= present@.subrange(
                0,
                i as int,
            ));
            assert(next[i as int] == files@[i as int]@);
        }
        if present[i] {
            match counterpart(config, &files[i]) {
                Some(d) => {
                    pairs.push(FilePair { source: files[i].duplicate(), destination: d });
                },
                None => {},
            }
        }
        proof {
            let next = path_views(files@.subrange(0, i + 1));
            assert(pairs@.map_values(|p: FilePair| p@) =~= discovered(
                config.src_dir@,
                config.dest_dir@,
                next,
                present@.subrange(0, i + 1),
            ));
        }
        i = i + 1;
    }
    assert(files@.subrange(0, files@.len() as int) =~= files@);
    assert(present@.subrange(0, present@.len() as int) =~= present@);
    pairs
}

proof fn lemma_discovered_members(
    src: PathModel,
    dest: PathModel,
    files: Seq<PathModel>,
    present: Seq<bool>,
)
    requires
        files.len() == present.len(),
    ensures
        forall|k: int|
            0 <= k < discovered(src, dest, files, present).len() ==> exists|i: int|
                0 <= i < files.len() && present[i] && #[trigger] discovered(
                    src,
                    dest,
                    files,
                    present,
                )[k].0 == files[i] && rebased(files[i], src, dest) == Some(
                    discovered(src, dest, files, present)[k].1,
                ),
        forall|i: int, d: PathModel|
            0 <= i < files.len() && present[i] && rebased(files[i], src, dest) == Some(d)
                ==> #[trigger] discovered(src, dest, files, present).contains((files[i], d)),
    decreases files.len(),
{
    if files.len() > 0 {
        let n = files.len() - 1;
        let f0 = files.drop_last();
        let p0 = present.subrange(0, n as int);
        lemma_discovered_members(src, dest, f0, p0);
        let rest = discovered(src, dest, f0, p0);
        let all = discovered(src, dest, files, present);
        assert forall|k: int| 0 <= k < all.len() implies exists|i: int|
            0 <= i < files.len() && present[i] && #[trigger] all[k].0 == files[i] && rebased(
                files[i],
                src,
                dest,
            ) == Some(all[k].1) by {
            if k < rest.len() {
                assert(all[k] == rest[k]);
                let i = choose|i: int|
                    0 <= i < f0.len() && p0[i] && #[trigger] rest[k].0 == f0[i] && rebased(
                        f0[i],
                        src,
                        dest,
                    ) == Some(rest[k].1);
                assert(files[i] == f0[i] && present[i] == p0[i]);
            } else {
                assert(all[k].0 == files[n as int]);
            }
        }
        assert forall|i: int, d: PathModel|
            0 <= i < files.len() && present[i] && rebased(files[i], src, dest) == Some(
                d,
            ) implies #[trigger] all.contains((files[i], d)) by {
            if i < n {
                assert(f0[i] == files[i] && p0[i] == present[i]);
                assert(rest.contains((f0[i], d)));
                let j = choose|j: int| 0 <= j < rest.len() && rest[j] == (f0[i], d);
                assert(all[j] == rest[j]);
            } else {
                assert(all.last() == (files[i], d));
            }
        }
    }
}

/// Whether the counterpart under `dest` of each of `files` is among
/// `dest_files`.
pub open spec fn counterpart_presence(
    src: PathModel,
    dest: PathModel,
    files: Seq<PathModel>,
    dest_files: Set<PathModel>,
) -> Seq<bool> {
    files.map_values(
        |f: PathModel|
            match rebased(f, src, dest) {
                Some(d) => dest_files.contains(d),
                None => false,
            },
    )
}

/// Discovery over the files of a source tree, against the files of a
/// destination tree: a file whose counterpart is in the destination tree is
/// paired with it, and every pair is a source file with its counterpart,
/// which is in the destination tree. A file present only in the source tree
/// is therefore in no pair.
pub proof fn discovery_is_complete(
    src: PathModel,
    dest: PathModel,
    files: Seq<PathModel>,
    dest_files: Set<PathModel>,
)
    ensures
        ({
            let pairs = discovered(src, dest, files, counterpart_presence(src, dest, files, dest_files));
            &&& forall|i: int, d: PathModel|
                0 <= i < files.len() && rebased(files[i], src, dest) == Some(d)
                    && dest_files.contains(d) ==> #[trigger] pairs.contains((files[i], d))
            &&& forall|k: int|
                0 <= k < pairs.len() ==> files.contains(#[trigger] pairs[k].0) && rebased(
                    pairs[k].0,
                    src,
                    dest,
                ) == Some(pairs[k].1) && dest_files.contains(pairs[k].1)
        }),
{
    let present = counterpart_presence(src, dest, files, dest_files);
    let pairs = discovered(src, dest, files, present);
    lemma_discovered_members(src, dest, files, present);
    assert forall|k: int| 0 <= k < pairs.len() implies files.contains(#[trigger] pairs[k].0)
        && rebased(pairs[k].0, src, dest) == Some(pairs[k].1) && dest_files.contains(
        pairs[k].1,
    ) by {
        let i = choose|i: int|
            0 <= i < files.len() && present[i] && #[trigger] pairs[k].0 == files[i] && rebased(
                files[i],
                src,
                dest,
            ) == Some(pairs[k].1);
        assert(present[i]);
    }
}

} // verus!
