use vstd::prelude::*;
use vstd::string::*;

verus! {

/// One entry of a directory listing, as the filesystem classified it.
#[derive(Debug, Clone, PartialEq, Eq)]
pub struct ListedEntry {
    /// The entry's base name.
    pub name: String,
    /// The entry's path, as the listing gave it.
    pub path: String,
    /// Whether the entry is a directory (a symbolic link counts as what it
    /// points to).
    pub is_dir: bool,
}

/// A directory chosen for archiving: the archive's file name and the
/// directory it is built from.
#[derive(Debug, Clone, PartialEq, Eq)]
pub struct Candidate {
    pub archive_name: String,
    pub source_path: String,
}

/// The suffix of every archive name.
pub open spec fn tar_suffix() -> Seq<char> {
    seq!['.', 't', 'a', 'r']
}

/// The archive name of a directory: its base name followed by `.tar`.
pub open spec fn archive_name_of(name: Seq<char>) -> Seq<char> {
    name + tar_suffix()
}

/// The mapping from archive name to source path that a listing yields: each
/// directory entry in turn is entered under its archive name, a later entry
/// replacing an earlier one of the same name.
pub open spec fn scan_map(entries: Seq<ListedEntry>) -> Map<Seq<char>, Seq<char>>
    decreases entries.len(),
{
    if entries.len() == 0 {
        Map::empty()
    } else {
        let rest = scan_map(entries.drop_last());
        let e = entries.last();
        if e.is_dir {
            rest.insert(archive_name_of(e.name@), e.path@)
        } else {
            rest
        }
    }
}

/// No two candidates share an archive name.
pub open spec fn archive_names_distinct(c: Seq<Candidate>) -> bool {
    forall|i: int, j: int|
        0 <= i < c.len() && 0 <= j < c.len() && i != j ==> c[i].archive_name@
            != c[j].archive_name@
}

/// The candidates list exactly the pairs of `m`, each once.
pub open spec fn lists_map(c: Seq<Candidate>, m: Map<Seq<char>, Seq<char>>) -> bool {
    &&& archive_names_distinct(c)
    &&& forall|i: int|
        0 <= i < c.len() ==> #[trigger] m.contains_key(c[i].archive_name@) && m[c[i].archive_name@]
            == c[i].source_path@
    &&& forall|k: Seq<char>|
        #[trigger] m.contains_key(k) ==> exists|i: int|
            0 <= i < c.len() && #[trigger] c[i].archive_name@ == k
}

/// No two entries of the listing share a base name, as in any one directory.
pub open spec fn names_distinct(entries: Seq<ListedEntry>) -> bool {
    forall|i: int, j: int|
        0 <= i < entries.len() && 0 <= j < entries.len() && i != j ==> entries[i].name@
            != entries[j].name@
}

/// How many entries of the listing are directories.
pub open spec fn directory_count(entries: Seq<ListedEntry>) -> nat
    decreases entries.len(),
{
    if entries.len() == 0 {
        0
    } else {
        directory_count(entries.drop_last()) + if entries.last().is_dir {
            1nat
        } else {
            0nat
        }
    }
}

/// The archive names of the directories of the listing.
pub open spec fn directory_keys(entries: Seq<ListedEntry>) -> Set<Seq<char>> {
    Set::new(
        |k: Seq<char>|
            exists|i: int|
                0 <= i < entries.len() && entries[i].is_dir && #[trigger] archive_name_of(
                    entries[i].name@,
                ) == k,
    )
}

proof fn lemma_archive_name_injective(x: Seq<char>, y: Seq<char>)
    requires
        archive_name_of(x) == archive_name_of(y),
    ensures
        x == y,
{
    assert(archive_name_of(x).len() == x.len() + 4);
    assert(archive_name_of(y).len() == y.len() + 4);
    assert(x == archive_name_of(x).subrange(0, x.len() as int));
    assert(y == archive_name_of(y).subrange(0, y.len() as int));
}

proof fn lemma_scan_map_shape(entries: Seq<ListedEntry>)
    ensures
        scan_map(entries).dom().finite(),
        scan_map(entries).dom() == directory_keys(entries),
        names_distinct(entries) ==> scan_map(entries).dom().len() == directory_count(entries),
        names_distinct(entries) ==> forall|i: int|
            0 <= i < entries.len() && entries[i].is_dir ==> #[trigger] scan_map(entries)[archive_name_of(
                entries[i].name@,
            )] == entries[i].path@,
    decreases entries.len(),
{
    if entries.len() > 0 {
        let p = entries.drop_last();
        let e = entries.last();
        let n = entries.len() - 1;
        lemma_scan_map_shape(p);
        assert(names_distinct(entries) ==> names_distinct(p));
        assert forall|k: Seq<char>| #[trigger] directory_keys(entries).contains(k) <==> scan_map(
            entries,
        ).dom().contains(k) by {
            if directory_keys(entries).contains(k) {
                let i = choose|i: int|
                    0 <= i < entries.len() && entries[i].is_dir && #[trigger] archive_name_of(
                        entries[i].name@,
                    ) == k;
                if i < n {
                    assert(p[i] == entries[i]);
                    assert(directory_keys(p).contains(k));
                }
            }
            if scan_map(entries).dom().contains(k) && !(e.is_dir && k == archive_name_of(e.name@)) {
                assert(directory_keys(p).contains(k));
                let i = choose|i: int|
                    0 <= i < p.len() && p[i].is_dir && #[trigger] archive_name_of(p[i].name@) == k;
                assert(entries[i] == p[i]);
            }
        }
        assert(scan_map(entries).dom() =~= directory_keys(entries));
        if names_distinct(entries) {
            if e.is_dir {
                if directory_keys(p).contains(archive_name_of(e.name@)) {
                    let i = choose|i: int|
                        0 <= i < p.len() && p[i].is_dir && #[trigger] archive_name_of(p[i].name@)
                            == archive_name_of(e.name@);
                    lemma_archive_name_injective(p[i].name@, e.name@);
                    assert(entries[i] == p[i]);
                }
            }
            assert forall|i: int|
                0 <= i < entries.len() && entries[i].is_dir implies #[trigger] scan_map(
                entries,
            )[archive_name_of(entries[i].name@)] == entries[i].path@ by {
                if i < n {
                    assert(entries[i] == p[i]);
                    if e.is_dir && archive_name_of(e.name@) == archive_name_of(entries[i].name@) {
                        lemma_archive_name_injective(e.name@, entries[i].name@);
                    }
                }
            }
        }
    }
}

/// A listing yields exactly one archive name per directory and none for any
/// other entry: the names are those of the directories with `.tar`
/// appended, each maps to its directory's path, and there are as many as
/// there are directories.
pub proof fn lemma_scan_one_key_per_directory(entries: Seq<ListedEntry>)
    requires
        names_distinct(entries),
    ensures
        scan_map(entries).dom() == directory_keys(entries),
        scan_map(entries).dom().len() == directory_count(entries),
        forall|i: int|
            0 <= i < entries.len() && entries[i].is_dir ==> #[trigger] scan_map(entries)[archive_name_of(
                entries[i].name@,
            )] == entries[i].path@,
{
    lemma_scan_map_shape(entries);
}

/// The mapping does not depend on the order in which the listing came: two
/// listings of the same entries yield the same mapping.
pub proof fn lemma_scan_order_independent(a: Seq<ListedEntry>, b: Seq<ListedEntry>)
    requires
        names_distinct(a),
        names_distinct(b),
        a.to_set() == b.to_set(),
    ensures
        scan_map(a) == scan_map(b),
{
    lemma_scan_map_shape(a);
    lemma_scan_map_shape(b);
    assert forall|k: Seq<char>| #[trigger] directory_keys(a).contains(k) implies directory_keys(
        b,
    ).contains(k) && scan_map(a)[k] == scan_map(b)[k] by {
        let i = choose|i: int|
            0 <= i < a.len() && a[i].is_dir && #[trigger] archive_name_of(a[i].name@) == k;
        assert(a.to_set().contains(a[i]));
        let j = choose|j: int| 0 <= j < b.len() && b[j] == a[i];
        assert(archive_name_of(b[j].name@) == k);
    }
    assert forall|k: Seq<char>| #[trigger] directory_keys(b).contains(k) implies directory_keys(
        a,
    ).contains(k) by {
        let j = choose|j: int|
            0 <= j < b.len() && b[j].is_dir && #[trigger] archive_name_of(b[j].name@) == k;
        assert(b.to_set().contains(b[j]));
        let i = choose|i: int| 0 <= i < a.len() && a[i] == b[j];
        assert(archive_name_of(a[i].name@) == k);
    }
    assert(scan_map(a) =~= scan_map(b));
}

/// The archive name of a directory with base name `name`.
pub fn archive_name(name: &String) -> (r: String)
    ensures
        r@ == archive_name_of(name@),
{
    proof {
        reveal_strlit(".tar");
    }
    name.clone().concat(".tar")
}

/// The position of the candidate named `key`, if there is one.
fn find_archive(c: &Vec<Candidate>, key: &String) -> (r: Option<usize>)
    ensures
        r matches Some(j) ==> j < c@.len() && c@[j as int].archive_name@ == key@,
        r is None ==> forall|j: int| 0 <= j < c@.len() ==> c@[j].archive_name@ != key@,
{
    let mut j: usize = 0;
    while j < c.len()
        invariant
            j <= c@.len(),
            forall|k: int| 0 <= k < j ==> c@[k].archive_name@ != key@,
        decreases c@.len() - j,
    {
        if c[j].archive_name == *key {
            return Some(j);
        }
        j = j + 1;
    }
    None
}

/// Chooses the directories of a listing for archiving: each directory entry
/// becomes a candidate named after it with `.tar` appended; other entries are
/// skipped. The result lists each pair of `scan_map` once.
pub fn pathfinder(entries: &Vec<ListedEntry>) -> (r: Vec<Candidate>)
    ensures
        lists_map(r@, scan_map(entries@)),
{
    let mut out: Vec<Candidate> = Vec::new();
    let mut i: usize = 0;
    while i < entries.len()
        invariant
            i <= entries@.len(),
            lists_map(out@, scan_map(entries@.take(i as int))),
        decreases entries@.len() - i,
    {
        let e = &entries[i];
        proof {
            assert(entries@.take(i + 1).drop_last() == entries@.take(i as int));
            assert(entries@.take(i + 1).last() == entries@[i as int]);
        }
        if e.is_dir {
            let key = archive_name(&e.name);
            let cand = Candidate { archive_name: key.clone(), source_path: e.path.clone() };
            let ghost prev = out@;
            match find_archive(&out, &key) {
                Some(j) => {
                    out.set(j, cand);
                    proof {
                        let m = scan_map(entries@.take(i + 1));
                        assert forall|k: Seq<char>| #[trigger] m.contains_key(k) implies exists|
                            x: int,
                        | 0 <= x < out@.len() && #[trigger] out@[x].archive_name@ == k by {
                            if k != key@ {
                                let x = choose|x: int|
                                    0 <= x < prev.len() && #[trigger] prev[x].archive_name@ == k;
                                assert(out@[x] == prev[x]);
                            } else {
                                assert(out@[j as int].archive_name@ == k);
                            }
                        }
                    }
                },
                None => {
                    out.push(cand);
                    proof {
                        let m = scan_map(entries@.take(i + 1));
                        assert forall|k: Seq<char>| #[trigger] m.contains_key(k) implies exists|
                            x: int,
                        | 0 <= x < out@.len() && #[trigger] out@[x].archive_name@ == k by {
                            if k != key@ {
                                let x = choose|x: int|
                                    0 <= x < prev.len() && #[trigger] prev[x].archive_name@ == k;
                                assert(out@[x] == prev[x]);
                            } else {
                                assert(out@[prev.len() as int].archive_name@ == k);
                            }
                        }
                    }
                },
            }
        }
        i = i + 1;
    }
    proof {
        assert(entries@.take(entries@.len() as int) == entries@);
    }
    out
}

} // verus!
