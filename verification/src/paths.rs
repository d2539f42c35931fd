use vstd::prelude::*;

use crate::github_meta::ascii_lower;
use crate::text::{chars_of, string_from};
use crate::path_order::{components_of, lemma_parts_le_total, lemma_parts_le_transitive, part_eq, part_view, parts_view, path_components, path_le, path_le_exec};

verus! {

/// Whether an untracked entry is a file or a directory.
#[derive(Clone, Copy, Debug, PartialEq, Eq, Structural)]
pub enum UntrackedKind {
    File,
    Directory,
}

impl UntrackedKind {
    /// What is written after the entry's path: nothing for a file, `/` for a directory.
    pub fn suffix(self) -> (s: &'static str)
        ensures
            s@ == match self {
                UntrackedKind::File => ""@,
                UntrackedKind::Directory => "/"@,
            },
    {
        match self {
            UntrackedKind::File => "",
            UntrackedKind::Directory => "/",
        }
    }
}

/// The position of the last `c` in `s`, if there is one.
pub open spec fn last_index_of(s: Seq<char>, c: char) -> Option<int>
    decreases s.len(),
{
    if s.len() == 0 {
        None
    } else if s.last() == c {
        Some(s.len() - 1)
    } else {
        last_index_of(s.drop_last(), c)
    }
}

/// The extension std's `Path::extension` finds in a path: the file name is
/// the last component when it is a normal one, and the extension is what
/// follows its last `.`; there is none when there is no file name, no `.`,
/// or only a leading one.
pub open spec fn path_extension(path: Seq<char>) -> Option<Seq<char>> {
    let parts = path_components(path);
    if parts.len() == 0 || parts.last().rank != 4 {
        None
    } else {
        let name = parts.last().text;
        match last_index_of(name, '.') {
            Some(i) => if i == 0 {
                None
            } else {
                Some(name.skip(i + 1))
            },
            None => None,
        }
    }
}

/// No `c` stands at `k` or after it, and `c` stands just before `k` (if `k`
/// is not the start): the last `c` is at `k - 1`.
proof fn lemma_last_index_of(s: Seq<char>, c: char, k: int)
    requires
        0 <= k <= s.len(),
        forall|j: int| k <= j < s.len() ==> s[j] != c,
        k > 0 ==> s[k - 1] == c,
    ensures
        last_index_of(s, c) == if k == 0 {
            None::<int>
        } else {
            Some(k - 1)
        },
    decreases s.len(),
{
    if s.len() > 0 && s.len() > k {
        lemma_last_index_of(s.drop_last(), c, k);
    }
}

/// The extension of a path, as std's `Path::extension` gives it: the part of
/// the file name after its last dot.
pub(crate) fn extension_of(path: &str) -> (r: Option<String>)
    ensures
        match r {
            Some(e) => path_extension(path@) == Some(e@),
            None => path_extension(path@) is None,
        },
{
    let parts = components_of(path);
    let n = parts.len();
    if n == 0 || parts[n - 1].0 != 4 {
        return None;
    }
    let name = &parts[n - 1].1;
    assert(path_components(path@).last() == part_view(parts@[n - 1]));
    let mut k = name.len();
    while k > 0 && name[k - 1] != '.'
        invariant
            k <= name@.len(),
            forall|j: int| k <= j < name@.len() ==> name@[j] != '.',
        decreases k,
    {
        k = k - 1;
    }
    proof {
        lemma_last_index_of(name@, '.', k as int);
    }
    if k <= 1 {
        return None;
    }
    Some(string_from(name, k))
}

/// What is left of `path` once the leading components of `base` are removed:
/// std's `Path::strip_prefix`; `None` when `base` is not a prefix of `path`.
pub uninterp spec fn path_without_prefix(path: Seq<char>, base: Seq<char>) -> Option<Seq<char>>;

/// Removes the leading components `base` from `path`: std's
/// `Path::strip_prefix`. The contract names the result [`path_without_prefix`].
#[verifier::external_body]
pub(crate) fn strip_path_prefix(path: &str, base: &str) -> (r: Option<String>)
    ensures
        match r {
            Some(rest) => path_without_prefix(path@, base@) == Some(rest@),
            None => path_without_prefix(path@, base@) is None,
        },
{
    match std::path::Path::new(path).strip_prefix(base) {
        Ok(rest) => Some(rest.to_string_lossy().into_owned()),
        Err(_) => None,
    }
}

/// A path names a Markdown file: its extension is `md`, in any ASCII case.
pub open spec fn names_md_file(path: Seq<char>) -> bool {
    match path_extension(path) {
        Some(e) => ascii_lower(e) == "md"@,
        None => false,
    }
}

/// The path as seen from `base`: relative to it when it lies below it,
/// unchanged otherwise.
pub open spec fn relative_path(base: Seq<char>, path: Seq<char>) -> Seq<char> {
    match path_without_prefix(path, base) {
        Some(rest) => rest,
        None => path,
    }
}

/// Compares a text with `md`, ignoring ASCII case.
fn is_md_ignoring_case(e: &str) -> (r: bool)
    ensures
        r == (ascii_lower(e@) == "md"@),
{
    let cs = chars_of(e);
    proof {
        reveal_strlit("md");
    }
    if cs.len() != 2 {
        assert(ascii_lower(e@).len() != "md"@.len());
        return false;
    }
    let a = cs[0];
    let b = cs[1];
    let r = (a == 'm' || a == 'M') && (b == 'd' || b == 'D');
    assert(ascii_lower(e@)[0] == crate::github_meta::lower_ascii(a));
    assert(ascii_lower(e@)[1] == crate::github_meta::lower_ascii(b));
    if r {
        assert(ascii_lower(e@) =~= "md"@);
    } else {
        assert(ascii_lower(e@) != "md"@) by {
            if ascii_lower(e@) == "md"@ {
                assert(ascii_lower(e@)[0] == 'm');
                assert(ascii_lower(e@)[1] == 'd');
            }
        }
    }
    r
}

/// Whether a path names a Markdown file (extension `md`, any ASCII case).
pub fn is_md_file(path: &str) -> (r: bool)
    ensures
        r == names_md_file(path@),
{
    match extension_of(path) {
        Some(e) => is_md_ignoring_case(e.as_str()),
        None => false,
    }
}

/// The path relative to `base`, or the path itself when it does not lie below `base`.
pub fn relative_to(base: &str, path: &str) -> (r: String)
    ensures
        r@ == relative_path(base@, path@),
{
    match strip_path_prefix(path, base) {
        Some(rest) => rest,
        None => String::from_str(path),
    }
}


/// The kind of thing a Skillfile entry installs.
#[derive(Clone, Copy, Debug, PartialEq, Eq, Structural)]
pub enum EntityType {
    Skill,
    Agent,
}

/// A file or directory found in a platform's install directory that no
/// manifest entry accounts for.
#[derive(Debug)]
pub struct UntrackedFile {
    pub entity_type: EntityType,
    /// The path, relative to the repository root when it lies below it.
    pub path: String,
    pub kind: UntrackedKind,
}

/// An untracked entry as plain values.
pub struct UntrackedView {
    pub entity_type: EntityType,
    pub path: Seq<char>,
    pub kind: UntrackedKind,
}

impl View for UntrackedFile {
    type V = UntrackedView;

    open spec fn view(&self) -> UntrackedView {
        UntrackedView { entity_type: self.entity_type, path: self.path@, kind: self.kind }
    }
}

/// What one install directory holds and how entries are laid out in it.
#[derive(Clone, Copy, Debug)]
pub struct ScanSpec {
    /// The kind of entry the directory holds.
    pub entity_type: EntityType,
    /// Entries are installed as directories (the nested layout), so
    /// subdirectories count as entries; otherwise only Markdown files do.
    pub nested: bool,
}

/// One entry of a directory listing, as read by the caller.
#[derive(Debug)]
pub struct ListedEntry {
    /// The entry's full path.
    pub path: String,
    /// Whether it is a directory.
    pub is_dir: bool,
}

/// Two paths that std's `Path` equality holds equal: it compares them
/// component by component, so they have the same components.
pub open spec fn same_path(a: Seq<char>, b: Seq<char>) -> bool {
    path_components(a) == path_components(b)
}

/// Compares two paths as std's `==` on `Path` does: component by component.
pub(crate) fn paths_equal(a: &str, b: &str) -> (r: bool)
    ensures
        r == same_path(a@, b@),
{
    let pa = components_of(a);
    let pb = components_of(b);
    if pa.len() != pb.len() {
        assert(parts_view(pa@).len() != parts_view(pb@).len());
        return false;
    }
    let mut i: usize = 0;
    while i < pa.len()
        invariant
            i <= pa@.len(),
            pa@.len() == pb@.len(),
            parts_view(pa@) == path_components(a@),
            parts_view(pb@) == path_components(b@),
            forall|j: int| 0 <= j < i ==> part_view(pa@[j]) == part_view(pb@[j]),
        decreases pa@.len() - i,
    {
        if !part_eq(&pa[i], &pb[i]) {
            assert(parts_view(pa@)[i as int] == part_view(pa@[i as int]));
            assert(parts_view(pb@)[i as int] == part_view(pb@[i as int]));
            assert(path_components(a@)[i as int] != path_components(b@)[i as int]);
            assert(path_components(a@) != path_components(b@));
            return false;
        }
        i = i + 1;
    }
    assert(parts_view(pa@) =~= parts_view(pb@));
    true
}

/// `p` equals (as a path) one of `set`.
pub open spec fn listed(set: Seq<Seq<char>>, p: Seq<char>) -> bool {
    exists|i: int| 0 <= i < set.len() && (#[trigger] set[i] == p || same_path(set[i], p))
}

/// The state of a scan: the paths seen so far, and what was found untracked.
pub struct ScanState {
    pub seen: Seq<Seq<char>>,
    pub items: Seq<UntrackedView>,
}

/// One listing entry scanned. Only directories (in the nested layout) and
/// Markdown files are considered; those covered by the manifest or already
/// seen are skipped; any other is recorded as untracked, relative to `root`.
pub open spec fn scan_entry(covered: Seq<Seq<char>>, root: Seq<char>, spec: ScanSpec, s: ScanState, path: Seq<char>, is_dir: bool) -> ScanState {
    let nested_dir = is_dir && spec.nested;
    if !nested_dir && !names_md_file(path) {
        s
    } else if listed(covered, path) || listed(s.seen, path) {
        s
    } else {
        ScanState {
            seen: s.seen.push(path),
            items: s.items.push(
                UntrackedView {
                    entity_type: spec.entity_type,
                    path: relative_path(root, path),
                    kind: if nested_dir {
                        UntrackedKind::Directory
                    } else {
                        UntrackedKind::File
                    },
                },
            ),
        }
    }
}

/// A whole listing scanned, entry after entry.
pub open spec fn scan_listing(covered: Seq<Seq<char>>, root: Seq<char>, spec: ScanSpec, s: ScanState, entries: Seq<(Seq<char>, bool)>) -> ScanState
    decreases entries.len(),
{
    if entries.len() == 0 {
        s
    } else {
        let before = scan_listing(covered, root, spec, s, entries.drop_last());
        scan_entry(covered, root, spec, before, entries.last().0, entries.last().1)
    }
}

/// Texts as plain values.
pub open spec fn paths_view(v: Seq<String>) -> Seq<Seq<char>> {
    v.map_values(|s: String| s@)
}

/// A listing as plain values.
pub open spec fn listing_view(v: Seq<ListedEntry>) -> Seq<(Seq<char>, bool)> {
    v.map_values(|e: ListedEntry| (e.path@, e.is_dir))
}

/// Collects untracked entries across install directories, each reported once.
pub struct DirScanner {
    covered: Vec<String>,
    repo_root: String,
    seen: Vec<String>,
    items: Vec<UntrackedFile>,
}

impl DirScanner {
    /// The paths the manifest accounts for.
    pub closed spec fn covered_paths(&self) -> Seq<Seq<char>> {
        paths_view(self.covered@)
    }

    /// The repository root paths are reported relative to.
    pub closed spec fn root(&self) -> Seq<char> {
        self.repo_root@
    }

    /// What the scan has seen and found so far.
    pub closed spec fn state(&self) -> ScanState {
        ScanState {
            seen: paths_view(self.seen@),
            items: self.items@.map_values(|f: UntrackedFile| f@),
        }
    }

    /// A scanner that has seen nothing yet.
    pub fn new(covered: Vec<String>, repo_root: &str) -> (s: Self)
        ensures
            s.covered_paths() == paths_view(covered@),
            s.root() == repo_root@,
            s.state() == (ScanState { seen: Seq::empty(), items: Seq::empty() }),
    {
        let s = DirScanner { covered, repo_root: String::from_str(repo_root), seen: Vec::new(), items: Vec::new() };
        assert(s.state().seen =~= Seq::<Seq<char>>::empty());
        assert(s.state().items =~= Seq::<UntrackedView>::empty());
        s
    }

    fn is_listed(set: &Vec<String>, path: &str) -> (r: bool)
        ensures
            r == listed(paths_view(set@), path@),
    {
        let mut i: usize = 0;
        while i < set.len()
            invariant
                i <= set@.len(),
                forall|j: int| 0 <= j < i ==> !(#[trigger] paths_view(set@)[j] == path@ || same_path(paths_view(set@)[j], path@)),
            decreases set@.len() - i,
        {
            if paths_equal(set[i].as_str(), path) {
                assert(same_path(paths_view(set@)[i as int], path@));
                return true;
            }
            assert(paths_view(set@)[i as int] != path@);
            i = i + 1;
        }
        false
    }

    /// Scans the listing of one install directory.
    pub fn scan_listing(&mut self, entries: &Vec<ListedEntry>, spec: ScanSpec)
        ensures
            final(self).covered_paths() == old(self).covered_paths(),
            final(self).root() == old(self).root(),
            final(self).state() == scan_listing(
                old(self).covered_paths(),
                old(self).root(),
                spec,
                old(self).state(),
                listing_view(entries@),
            ),
    {
        let ghost start = self.state();
        let ghost all = listing_view(entries@);
        let mut i: usize = 0;
        assert(all.take(0) =~= Seq::<(Seq<char>, bool)>::empty());
        while i < entries.len()
            invariant
                i <= entries@.len(),
                all == listing_view(entries@),
                self.covered_paths() == old(self).covered_paths(),
                self.root() == old(self).root(),
                start == old(self).state(),
                self.state() == scan_listing(self.covered_paths(), self.root(), spec, start, all.take(i as int)),
            decreases entries@.len() - i,
        {
            assert(all.take(i + 1).drop_last() =~= all.take(i as int));
            assert(all.take(i + 1).last() == (entries@[i as int].path@, entries@[i as int].is_dir));
            let entry = &entries[i];
            let nested_dir = entry.is_dir && spec.nested;
            if nested_dir || is_md_file(entry.path.as_str()) {
                if !Self::is_listed(&self.covered, entry.path.as_str())
                    && !Self::is_listed(&self.seen, entry.path.as_str()) {
                    let ghost before = self.state();
                    self.seen.push(String::from_str(entry.path.as_str()));
                    let kind = if nested_dir {
                        UntrackedKind::Directory
                    } else {
                        UntrackedKind::File
                    };
                    let f = UntrackedFile {
                        entity_type: spec.entity_type,
                        path: relative_to(self.repo_root.as_str(), entry.path.as_str()),
                        kind,
                    };
                    self.items.push(f);
                    assert(self.state().seen =~= before.seen.push(entry.path@));
                    assert(self.state().items =~= before.items.push(f@));
                }
            }
            i = i + 1;
        }
        assert(all.take(entries@.len() as int) =~= all);
    }
}

/// Untracked entries as plain values.
pub open spec fn untracked_views(v: Seq<UntrackedFile>) -> Seq<UntrackedView> {
    v.map_values(|f: UntrackedFile| f@)
}

/// Entries listed in std's order of their paths.
pub open spec fn in_path_order(s: Seq<UntrackedView>) -> bool {
    forall|i: int, j: int| 0 <= i < j < s.len() ==> path_le(#[trigger] s[i].path, #[trigger] s[j].path)
}

/// Any two paths are ordered one way or the other.
proof fn lemma_path_le_total(a: Seq<char>, b: Seq<char>)
    ensures
        path_le(a, b) || path_le(b, a),
{
    lemma_parts_le_total(path_components(a), path_components(b));
}

/// The order of paths is transitive.
proof fn lemma_path_le_transitive(a: Seq<char>, b: Seq<char>, c: Seq<char>)
    requires
        path_le(a, b),
        path_le(b, c),
    ensures
        path_le(a, c),
{
    lemma_parts_le_transitive(path_components(a), path_components(b), path_components(c));
}

/// Where `x` goes in `items`: after every entry whose path sorts no later.
fn path_insertion_point(items: &Vec<UntrackedFile>, x: &UntrackedFile) -> (p: usize)
    ensures
        p <= items@.len(),
        forall|k: int| 0 <= k < p ==> path_le(#[trigger] items@[k].path@, x.path@),
        p < items@.len() ==> !path_le(items@[p as int].path@, x.path@),
{
    let mut p: usize = 0;
    while p < items.len() && path_le_exec(items[p].path.as_str(), x.path.as_str())
        invariant
            p <= items@.len(),
            forall|k: int| 0 <= k < p ==> path_le(#[trigger] items@[k].path@, x.path@),
        decreases items@.len() - p,
    {
        p = p + 1;
    }
    p
}

/// Inserting an entry after every entry whose path sorts no later than its
/// own, and before the rest, keeps a list in path order.
proof fn lemma_insert_keeps_path_order(before: Seq<UntrackedView>, p: int, x: UntrackedView)
    requires
        in_path_order(before),
        0 <= p <= before.len(),
        forall|k: int| 0 <= k < p ==> path_le(#[trigger] before[k].path, x.path),
        p < before.len() ==> path_le(x.path, before[p].path),
    ensures
        in_path_order(before.insert(p, x)),
{
    let after = before.insert(p, x);
    before.insert_ensures(p, x);
    assert forall|i: int, j: int| 0 <= i < j < after.len() implies path_le(
        #[trigger] after[i].path,
        #[trigger] after[j].path,
    ) by {
        if j < p {
            assert(after[i] == before[i] && after[j] == before[j]);
        } else if j == p {
            assert(after[i] == before[i]);
        } else if i == p {
            assert(after[j] == before[j - 1]);
            if j - 1 > p {
                assert(path_le(before[p].path, before[j - 1].path));
                lemma_path_le_transitive(x.path, before[p].path, before[j - 1].path);
            }
        } else if i < p {
            assert(after[i] == before[i] && after[j] == before[j - 1]);
        } else {
            assert(after[i] == before[i - 1] && after[j] == before[j - 1]);
        }
    }
}

impl DirScanner {
    /// What was found, in std's order of paths (entries with equal paths in
    /// no particular order).
    pub fn into_sorted(self) -> (r: Vec<UntrackedFile>)
        ensures
            in_path_order(untracked_views(r@)),
            untracked_views(r@).to_multiset() == self.state().items.to_multiset(),
    {
        let mut rest = self.items;
        let ghost orig = untracked_views(rest@);
        assert(orig =~= self.state().items);
        let mut items: Vec<UntrackedFile> = Vec::new();
        assert(orig.take(0) =~= Seq::<UntrackedView>::empty());
        assert(orig.skip(0) =~= orig);
        assert(untracked_views(items@) =~= Seq::<UntrackedView>::empty());
        while rest.len() > 0
            invariant
                rest@.len() <= orig.len(),
                untracked_views(rest@) == orig.skip(orig.len() - rest@.len()),
                in_path_order(untracked_views(items@)),
                untracked_views(items@).to_multiset() == orig.take(orig.len() - rest@.len()).to_multiset(),
            decreases rest@.len(),
        {
            let ghost m = orig.len() - rest@.len();
            let ghost before = untracked_views(items@);
            let ghost old_rest = rest@;
            let x = rest.remove(0);
            assert(untracked_views(old_rest) == orig.skip(m));
            assert(untracked_views(old_rest)[0] == x@);
            assert(untracked_views(rest@) =~= orig.skip(m + 1)) by {
                assert forall|k: int| 0 <= k < rest@.len() implies #[trigger] untracked_views(rest@)[k] == orig.skip(m + 1)[k] by {
                    assert(rest@[k] == old_rest[k + 1]);
                    assert(untracked_views(old_rest)[k + 1] == orig.skip(m)[k + 1]);
                }
            }
            assert(orig[m] == x@);
            assert(orig.take(m + 1) =~= orig.take(m).push(x@));
            let p = path_insertion_point(&items, &x);
            proof {
                if p < items@.len() {
                    lemma_path_le_total(items@[p as int].path@, x.path@);
                }
            }
            items.insert(p, x);
            let ghost after = untracked_views(items@);
            assert(after =~= before.insert(p as int, x@));
            proof {
                lemma_insert_keeps_path_order(before, p as int, x@);
            }
            assert(after.to_multiset() == orig.take(m + 1).to_multiset()) by {
                broadcast use vstd::seq_lib::group_seq_properties;
                let front = before.take(p as int);
                let back = before.skip(p as int);
                assert(before =~= front + back);
                assert(after =~= front.push(x@) + back);
                vstd::seq_lib::lemma_multiset_commutative(front.push(x@), back);
                vstd::seq_lib::lemma_multiset_commutative(front, back);
            }
        }
        assert(orig.take(orig.len() as int) =~= orig);
        items
    }
}

/// `item` was recorded for the listing entry `entry`: it has the entity type of the
/// install directory, its path is the entry's path relative to `root`, it is a
/// directory exactly when the entry is a directory in the nested layout, and
/// the manifest does not cover the entry.
pub open spec fn recorded_for(item: UntrackedView, covered: Seq<Seq<char>>, root: Seq<char>, spec: ScanSpec, entry: (Seq<char>, bool)) -> bool {
    &&& item.entity_type == spec.entity_type
    &&& item.path == relative_path(root, entry.0)
    &&& item.kind == if entry.1 && spec.nested {
        UntrackedKind::Directory
    } else {
        UntrackedKind::File
    }
    &&& !listed(covered, entry.0)
}

/// Law: a scan keeps what was found before and adds only entries of the
/// listing, each with the entity type of the directory it was listed in, its
/// path relative to the root, its kind from whether it is a nested
/// directory, and never an entry the manifest covers.
pub proof fn lemma_scan_records_listed_entries(covered: Seq<Seq<char>>, root: Seq<char>, spec: ScanSpec, s: ScanState, entries: Seq<(Seq<char>, bool)>)
    ensures
        ({
            let after = scan_listing(covered, root, spec, s, entries);
            &&& s.items.len() <= after.items.len()
            &&& forall|i: int| 0 <= i < s.items.len() ==> #[trigger] after.items[i] == s.items[i]
            &&& forall|i: int| s.items.len() <= i < after.items.len() ==> exists|k: int|
                0 <= k < entries.len() && recorded_for(#[trigger] after.items[i], covered, root, spec, entries[k])
        }),
    decreases entries.len(),
{
    if entries.len() > 0 {
        let front = entries.drop_last();
        lemma_scan_records_listed_entries(covered, root, spec, s, front);
        let before = scan_listing(covered, root, spec, s, front);
        let after = scan_listing(covered, root, spec, s, entries);
        assert(after == scan_entry(covered, root, spec, before, entries.last().0, entries.last().1));
        assert forall|i: int| s.items.len() <= i < after.items.len() implies exists|k: int|
            0 <= k < entries.len() && recorded_for(#[trigger] after.items[i], covered, root, spec, entries[k]) by {
            if i < before.items.len() {
                assert(after.items[i] == before.items[i]);
                let k = choose|k: int| 0 <= k < front.len() && recorded_for(before.items[i], covered, root, spec, front[k]);
                assert(front[k] == entries[k]);
            } else {
                assert(recorded_for(after.items[i], covered, root, spec, entries[entries.len() - 1]));
            }
        }
    }
}

/// After a listing is scanned, every entry of it that would be reported is
/// covered or seen.
proof fn lemma_scan_marks_seen(covered: Seq<Seq<char>>, root: Seq<char>, spec: ScanSpec, s: ScanState, entries: Seq<(Seq<char>, bool)>, k: int)
    requires
        0 <= k < entries.len(),
    ensures
        ({
            let after = scan_listing(covered, root, spec, s, entries);
            let (path, is_dir) = entries[k];
            (is_dir && spec.nested) || names_md_file(path) ==> listed(covered, path) || listed(after.seen, path)
        }),
    decreases entries.len(),
{
    let after = scan_listing(covered, root, spec, s, entries);
    let before = scan_listing(covered, root, spec, s, entries.drop_last());
    let (path, is_dir) = entries[k];
    if k < entries.len() - 1 {
        lemma_scan_marks_seen(covered, root, spec, s, entries.drop_last(), k);
        assert(entries.drop_last()[k] == entries[k]);
        if listed(before.seen, path) {
            let i = choose|i: int| 0 <= i < before.seen.len() && (#[trigger] before.seen[i] == path || same_path(before.seen[i], path));
            assert(after == scan_entry(covered, root, spec, before, entries.last().0, entries.last().1));
            assert(after.seen[i] == before.seen[i]);
        }
    } else {
        if ((is_dir && spec.nested) || names_md_file(path)) && !listed(covered, path) && !listed(before.seen, path) {
            assert(after.seen[before.seen.len() as int] == path);
        }
    }
}

/// Law: a path is reported once, however often it is listed. Scanning a
/// listing again, after it has been scanned, finds nothing more.
pub proof fn lemma_scan_again_finds_nothing(covered: Seq<Seq<char>>, root: Seq<char>, spec: ScanSpec, s: ScanState, entries: Seq<(Seq<char>, bool)>)
    ensures
        ({
            let once = scan_listing(covered, root, spec, s, entries);
            scan_listing(covered, root, spec, once, entries) == once
        }),
{
    let once = scan_listing(covered, root, spec, s, entries);
    lemma_rescan_prefix(covered, root, spec, s, entries, entries.len() as int);
    assert(entries.take(entries.len() as int) =~= entries);
}

proof fn lemma_rescan_prefix(covered: Seq<Seq<char>>, root: Seq<char>, spec: ScanSpec, s: ScanState, entries: Seq<(Seq<char>, bool)>, n: int)
    requires
        0 <= n <= entries.len(),
    ensures
        ({
            let once = scan_listing(covered, root, spec, s, entries);
            scan_listing(covered, root, spec, once, entries.take(n)) == once
        }),
    decreases n,
{
    let once = scan_listing(covered, root, spec, s, entries);
    if n > 0 {
        lemma_rescan_prefix(covered, root, spec, s, entries, n - 1);
        assert(entries.take(n).drop_last() =~= entries.take(n - 1));
        assert(entries.take(n).last() == entries[n - 1]);
        lemma_scan_marks_seen(covered, root, spec, s, entries, n - 1);
    } else {
        assert(entries.take(0) =~= Seq::<(Seq<char>, bool)>::empty());
    }
}

} // verus!
