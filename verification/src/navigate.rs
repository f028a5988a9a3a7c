//! Where the demos of a repository lie, by major and minor number.

use crate::text::{
    chars_of, digits_start, digits_value, is_digit, is_digit_char, parse_digits, scan_digits_back,
};
use std::collections::BTreeMap;
use vstd::prelude::*;

verus! {

/// A directory of demos that share a major number: its path, and for each
/// minor number the path of the demo.
#[derive(Debug)]
pub struct Subdir {
    pub subdir_path: String,
    pub demos: BTreeMap<u32, String>,
}

/// The demos of a repository: for each major number the directory that
/// holds them.
pub type DemoLookup = BTreeMap<u32, Subdir>;

/// Why no demo was found, with the numbers that could have been asked for.
#[derive(Debug)]
pub enum VersionNotFound {
    /// No directory holds demos of this major number.
    Major { major: u32, available: Vec<u32> },
    /// The directory of the major number holds no demo of this minor number.
    Minor { minor: u32, subdir_path: String, available: Vec<u32> },
}

/// `keys` lists the numbers of `set`, each once, in rising order.
pub open spec fn is_listing(keys: Seq<u32>, set: Set<u32>) -> bool {
    &&& keys.to_set() == set
    &&& forall|i: int, j: int| 0 <= i < j < keys.len() ==> keys[i] < keys[j]
}

/// The keys of `map`, each once, in the order in which the map hands
/// them out.
fn keys_of<V>(map: &BTreeMap<u32, V>) -> (keys: Vec<u32>)
    ensures
        keys@.to_set() == map@.dom(),
        keys@.no_duplicates(),
{
    let mut keys: Vec<u32> = Vec::new();
    for k in it: map.keys()
        invariant
            keys@ == it.seq().take(it.index()).unref(),
            it.seq().unref().to_set() == map@.dom(),
            it.seq().no_duplicates(),
            it.index() == it.seq().len() ==> keys@ == it.seq().unref(),
    {
        keys.push(*k);
        assert(it.index() + 1 == it.seq().len() ==> it.seq().take(it.index() + 1) =~= it.seq());
    }
    proof {
        assert forall|i: int, j: int| 0 <= i < j < keys.len() implies keys@[i] != keys@[j] by {}
    }
    keys
}

/// The numbers of `keys`, which are all different, in rising order.
fn in_rising_order(keys: &Vec<u32>) -> (sorted: Vec<u32>)
    requires
        keys@.no_duplicates(),
    ensures
        is_listing(sorted@, keys@.to_set()),
{
    let mut sorted: Vec<u32> = Vec::new();
    let mut i: usize = 0;
    while i < keys.len()
        invariant
            i <= keys.len(),
            keys@.no_duplicates(),
            sorted@.to_set() == keys@.take(i as int).to_set(),
            forall|a: int, b: int| 0 <= a < b < sorted.len() ==> sorted[a] < sorted[b],
        decreases keys.len() - i,
    {
        let key = keys[i];
        let mut p: usize = 0;
        while p < sorted.len() && sorted[p] < key
            invariant
                p <= sorted.len(),
                forall|a: int| 0 <= a < p ==> sorted[a] < key,
            decreases sorted.len() - p,
        {
            p += 1;
        }
        let ghost before = sorted@;
        proof {
            // The key is new: it stands at index `i`, and what is sorted so
            // far came from before that index.
            if before.contains(key) {
                assert(before.to_set().contains(key));
                assert(keys@.take(i as int).contains(key));
                let j = choose|j: int| 0 <= j < i && keys@.take(i as int)[j] == key;
                assert(keys@[j] == keys@[i as int]);
            }
            if p < before.len() {
                assert(before.contains(before[p as int]));
            }
        }
        sorted.insert(p, key);
        proof {
            assert forall|a: int, b: int| 0 <= a < b < sorted.len() implies sorted[a]
                < sorted[b] by {
                if a < p && b > p {
                    assert(sorted[a] == before[a]);
                    assert(sorted[b] == before[b - 1]);
                } else if a < p && b == p {
                } else if a == p {
                    assert(sorted[b] == before[b - 1]);
                    assert(before[p as int] <= before[b - 1]);
                    assert(before.contains(before[p as int]));
                } else if b < p {
                    assert(sorted[a] == before[a]);
                    assert(sorted[b] == before[b]);
                } else {
                    assert(sorted[a] == before[a - 1]);
                    assert(sorted[b] == before[b - 1]);
                }
            }
            let next = keys@.take(i + 1);
            assert forall|k: u32| sorted@.to_set().contains(k) <==> next.to_set().contains(k) by {
                if sorted@.contains(k) {
                    let j = choose|j: int| 0 <= j < sorted.len() && sorted[j] == k;
                    if j < p {
                        assert(before[j] == k);
                        assert(before.to_set().contains(k));
                    } else if j > p {
                        assert(before[j - 1] == k);
                        assert(before.to_set().contains(k));
                    }
                    if k == key {
                        assert(next[i as int] == k);
                    } else {
                        assert(keys@.take(i as int).contains(k));
                        let m = choose|m: int| 0 <= m < i && keys@.take(i as int)[m] == k;
                        assert(next[m] == k);
                    }
                }
                if next.contains(k) {
                    let m = choose|m: int| 0 <= m < next.len() && next[m] == k;
                    if m == i {
                        assert(sorted[p as int] == k);
                    } else {
                        assert(keys@.take(i as int)[m] == k);
                        assert(before.to_set().contains(k));
                        let j = choose|j: int| 0 <= j < before.len() && before[j] == k;
                        if j < p {
                            assert(sorted[j] == k);
                        } else {
                            assert(sorted[j + 1] == k);
                        }
                    }
                }
            }
            assert(sorted@.to_set() =~= next.to_set());
        }
        i += 1;
    }
    assert(keys@.take(keys.len() as int) =~= keys@);
    sorted
}

/// The keys of `map`, each once, in rising order.
pub fn sorted_keys<V>(map: &BTreeMap<u32, V>) -> (keys: Vec<u32>)
    ensures
        is_listing(keys@, map@.dom()),
{
    let keys = keys_of(map);
    in_rising_order(&keys)
}

/// Finds the path of the demo with the given major and minor number. Where
/// there is none, the error names the number that was not found and lists
/// the numbers that there are in its place.
pub fn find_demo(lookup: &DemoLookup, major: u32, minor: u32) -> (r: Result<
    String,
    VersionNotFound,
>)
    ensures
        match r {
            Ok(path) => {
                &&& lookup@.contains_key(major)
                &&& lookup@[major].demos@.contains_key(minor)
                &&& path@ == lookup@[major].demos@[minor]@
            },
            Err(VersionNotFound::Major { major: asked, available }) => {
                &&& asked == major
                &&& !lookup@.contains_key(major)
                &&& is_listing(available@, lookup@.dom())
            },
            Err(VersionNotFound::Minor { minor: asked, subdir_path, available }) => {
                &&& asked == minor
                &&& lookup@.contains_key(major)
                &&& !lookup@[major].demos@.contains_key(minor)
                &&& subdir_path@ == lookup@[major].subdir_path@
                &&& is_listing(available@, lookup@[major].demos@.dom())
            },
        },
{
    match lookup.get(&major) {
        None => Err(VersionNotFound::Major { major, available: sorted_keys(lookup) }),
        Some(subdir) => match subdir.demos.get(&minor) {
            None => Err(
                VersionNotFound::Minor {
                    minor,
                    subdir_path: subdir.subdir_path.clone(),
                    available: sorted_keys(&subdir.demos),
                },
            ),
            Some(path) => Ok(path.clone()),
        },
    }
}

/// `c` may occur in the name of a directory of demos before its numbers: an
/// ASCII letter or digit, or the underscore.
pub open spec fn is_name_char(c: char) -> bool {
    c == '_' || is_digit(c) || ('a' <= c && c <= 'z') || ('A' <= c && c <= 'Z')
}

/// The major and minor number that the name `stem` of a directory gives,
/// where it is the name of a demo: one or more name characters, an
/// underscore, the digits of the major number, an underscore, and the digits
/// of the minor number, both numbers within `u32`.
pub open spec fn demo_dir_name(stem: Seq<char>) -> Option<(u32, u32)> {
    let minor_at = digits_start(stem, stem.len() as int);
    let major_end = minor_at - 1;
    let major_at = digits_start(stem, major_end);
    let name_end = major_at - 1;
    let major = digits_value(stem.subrange(major_at, major_end));
    let minor = digits_value(stem.subrange(minor_at, stem.len() as int));
    if minor_at < stem.len() && 0 <= major_end && stem[major_end] == '_' && major_at < major_end
        && 0 < name_end && stem[name_end] == '_' && (forall|i: int|
        0 <= i < name_end ==> is_name_char(#[trigger] stem[i])) && major <= u32::MAX && minor
        <= u32::MAX {
        Some((major as u32, minor as u32))
    } else {
        None
    }
}

/// Tells whether `c` may occur in the name of a directory of demos.
fn is_name_char_exec(c: char) -> (b: bool)
    ensures
        b == is_name_char(c),
{
    c == '_' || is_digit_char(c) || ('a' <= c && c <= 'z') || ('A' <= c && c <= 'Z')
}

/// Tells whether the first `to` characters of `v` may all occur in the name
/// of a directory of demos.
fn all_name_chars(v: &Vec<char>, to: usize) -> (b: bool)
    requires
        to <= v.len(),
    ensures
        b == forall|i: int| 0 <= i < to ==> is_name_char(#[trigger] v@[i]),
{
    let mut i: usize = 0;
    while i < to
        invariant
            i <= to <= v.len(),
            forall|j: int| 0 <= j < i ==> is_name_char(#[trigger] v@[j]),
        decreases to - i,
    {
        if !is_name_char_exec(v[i]) {
            return false;
        }
        i += 1;
    }
    true
}

/// Reads the major and minor number from the name of a directory.
pub fn parse_demo_dir_name(stem: &str) -> (r: Option<(u32, u32)>)
    ensures
        r == demo_dir_name(stem@),
{
    let v = chars_of(stem);
    let n = v.len();
    let minor_at = scan_digits_back(&v, n);
    if minor_at >= n || minor_at == 0 || v[minor_at - 1] != '_' {
        return None;
    }
    let major_end = minor_at - 1;
    let major_at = scan_digits_back(&v, major_end);
    if major_at >= major_end || major_at == 0 || v[major_at - 1] != '_' {
        return None;
    }
    let name_end = major_at - 1;
    if name_end == 0 {
        return None;
    }
    if !all_name_chars(&v, name_end) {
        return None;
    }
    proof {
        let major_run = v@.subrange(major_at as int, major_end as int);
        assert forall|j: int| 0 <= j < major_run.len() implies is_digit(#[trigger] major_run[j]) by {
            assert(major_run[j] == v@[major_at + j]);
        }
        let minor_run = v@.subrange(minor_at as int, n as int);
        assert forall|j: int| 0 <= j < minor_run.len() implies is_digit(#[trigger] minor_run[j]) by {
            assert(minor_run[j] == v@[minor_at + j]);
        }
    }
    let major = parse_digits(&v, major_at, major_end, 0xffff_ffff);
    let minor = parse_digits(&v, minor_at, n, 0xffff_ffff);
    match major {
        Some(major) => match minor {
            Some(minor) => Some((major as u32, minor as u32)),
            None => None,
        },
        None => None,
    }
}

/// A directory found in a directory of demos: its path, and its name
/// without extension.
#[derive(Debug)]
pub struct DirEntry {
    pub path: String,
    pub stem: String,
}

/// A directory and the directories found in it, in the order in which they
/// were listed.
#[derive(Debug)]
pub struct DirListing {
    pub path: String,
    pub children: Vec<DirEntry>,
}

/// What a `Subdir` holds, as plain values.
pub struct SubdirView {
    pub path: Seq<char>,
    pub demos: Map<u32, Seq<char>>,
}

impl Subdir {
    /// The path of the directory and, for each minor number, the path of
    /// the demo.
    pub open spec fn view(&self) -> SubdirView {
        SubdirView { path: self.subdir_path@, demos: self.demos@.map_values(|p: String| p@) }
    }
}

/// What a lookup holds, as plain values.
pub open spec fn lookup_view(lookup: Map<u32, Subdir>) -> Map<u32, SubdirView> {
    lookup.map_values(|s: Subdir| s@)
}

/// The major numbers that the demos among the children of a directory have:
/// none, one only, or several.
pub enum Majors {
    Zero,
    One(u32),
    Several,
}

/// The major numbers of the demos among `children`.
pub open spec fn majors_of(children: Seq<DirEntry>) -> Majors
    decreases children.len(),
{
    if children.len() == 0 {
        Majors::Zero
    } else {
        let before = majors_of(children.drop_last());
        match demo_dir_name(children.last().stem@) {
            None => before,
            Some((major, _)) => match before {
                Majors::Zero => Majors::One(major),
                Majors::One(other) => if other == major {
                    before
                } else {
                    Majors::Several
                },
                Majors::Several => before,
            },
        }
    }
}

/// The number of demos among `children`.
pub open spec fn demo_count(children: Seq<DirEntry>) -> nat
    decreases children.len(),
{
    if children.len() == 0 {
        0
    } else {
        demo_count(children.drop_last()) + if demo_dir_name(children.last().stem@) is Some {
            1nat
        } else {
            0nat
        }
    }
}

/// The paths of the demos among `children` by minor number. Of two demos
/// with one minor number the later is kept.
pub open spec fn demos_of(children: Seq<DirEntry>) -> Map<u32, Seq<char>>
    decreases children.len(),
{
    if children.len() == 0 {
        Map::empty()
    } else {
        let before = demos_of(children.drop_last());
        match demo_dir_name(children.last().stem@) {
            None => before,
            Some((_, minor)) => before.insert(minor, children.last().path@),
        }
    }
}

/// The lookup after `dir` has been looked at, where it was `before`. A
/// directory enters the lookup where its demos have one major number only.
/// Where the lookup holds a directory for that number already, the new one
/// takes its place only if it has more demos than the old one has minor
/// numbers.
pub open spec fn lookup_with(before: Map<u32, SubdirView>, dir: DirListing) -> Map<
    u32,
    SubdirView,
> {
    match majors_of(dir.children@) {
        Majors::One(major) => if before.contains_key(major) && demo_count(dir.children@)
            <= before[major].demos.dom().len() {
            before
        } else {
            before.insert(
                major,
                SubdirView { path: dir.path@, demos: demos_of(dir.children@) },
            )
        },
        _ => before,
    }
}

/// The lookup of the demos in `dirs`, looked at in order.
pub open spec fn lookup_of(dirs: Seq<DirListing>) -> Map<u32, SubdirView>
    decreases dirs.len(),
{
    if dirs.len() == 0 {
        Map::empty()
    } else {
        lookup_with(lookup_of(dirs.drop_last()), dirs.last())
    }
}

/// What `scan_children` finds.
struct Scan {
    majors: Majors,
    count: usize,
    demos: BTreeMap<u32, String>,
}

/// Looks at the children of one directory: the major numbers of its demos,
/// how many demos there are, and their paths by minor number.
fn scan_children(children: &Vec<DirEntry>) -> (scan: Scan)
    ensures
        scan.majors == majors_of(children@),
        scan.count == demo_count(children@),
        scan.demos@.map_values(|p: String| p@) == demos_of(children@),
{
    let mut majors = Majors::Zero;
    let mut count: usize = 0;
    let mut demos: BTreeMap<u32, String> = BTreeMap::new();
    let mut i: usize = 0;
    assert(demos@.map_values(|p: String| p@) =~= Map::<u32, Seq<char>>::empty());
    while i < children.len()
        invariant
            i <= children.len(),
            majors == majors_of(children@.take(i as int)),
            count == demo_count(children@.take(i as int)),
            count <= i,
            demos@.map_values(|p: String| p@) == demos_of(children@.take(i as int)),
        decreases children.len() - i,
    {
        proof {
            assert(children@.take(i + 1).drop_last() =~= children@.take(i as int));
            assert(children@.take(i + 1).last() == children[i as int]);
        }
        match parse_demo_dir_name(children[i].stem.as_str()) {
            Some((major, minor)) => {
                majors = match majors {
                    Majors::Zero => Majors::One(major),
                    Majors::One(other) => if other == major {
                        Majors::One(other)
                    } else {
                        Majors::Several
                    },
                    Majors::Several => Majors::Several,
                };
                count += 1;
                let ghost before = demos@;
                let path = children[i].path.clone();
                demos.insert(minor, path);
                assert(demos@.map_values(|p: String| p@) =~= before.map_values(
                    |p: String| p@,
                ).insert(minor, children[i as int].path@));
            },
            None => {},
        }
        i += 1;
    }
    assert(children@.take(children.len() as int) =~= children@);
    Scan { majors, count, demos }
}

/// Builds the lookup of the demos found in `dirs`, which are looked at in
/// order.
pub fn demo_lookup(dirs: &Vec<DirListing>) -> (lookup: DemoLookup)
    ensures
        lookup_view(lookup@) == lookup_of(dirs@),
{
    let mut lookup: DemoLookup = BTreeMap::new();
    let mut i: usize = 0;
    assert(lookup_view(lookup@) =~= Map::<u32, SubdirView>::empty());
    while i < dirs.len()
        invariant
            i <= dirs.len(),
            lookup_view(lookup@) == lookup_of(dirs@.take(i as int)),
        decreases dirs.len() - i,
    {
        proof {
            assert(dirs@.take(i + 1).drop_last() =~= dirs@.take(i as int));
            assert(dirs@.take(i + 1).last() == dirs[i as int]);
        }
        let scan = scan_children(&dirs[i].children);
        match scan.majors {
            Majors::One(major) => {
                let keep = match lookup.get(&major) {
                    Some(other) => {
                        assert(lookup_view(lookup@)[major].demos.dom() =~= other.demos@.dom());
                        scan.count <= other.demos.len()
                    },
                    None => false,
                };
                if !keep {
                    let ghost before = lookup@;
                    let subdir = Subdir { subdir_path: dirs[i].path.clone(), demos: scan.demos };
                    lookup.insert(major, subdir);
                    assert(lookup_view(lookup@) =~= lookup_view(before).insert(major, subdir@));
                }
            },
            _ => {},
        }
        i += 1;
    }
    assert(dirs@.take(dirs.len() as int) =~= dirs@);
    lookup
}

/// Tells whether a directory of this name is looked at: its name is not
/// empty and does not begin with a point.
pub fn is_listed_name(name: &str) -> (b: bool)
    ensures
        b == (name@.len() > 0 && name@[0] != '.'),
{
    let v = chars_of(name);
    v.len() > 0 && v[0] != '.'
}

} // verus!
