//! Finding the packages that depend on a target, and planning which of them
//! are still to be fetched.

use vstd::prelude::*;
use crate::text::text_of;

verus! {

/// One package of the index, at its highest version.
///
/// Two records are equal when they are the same entry of an inventory:
/// when name and version agree, letter for letter.
#[derive(Clone, Debug)]
pub struct PackageRecord {
    pub name: String,
    pub version: String,
    /// The names of the packages it depends on.
    pub dependencies: Vec<String>,
}

/// The mathematical content of a [`PackageRecord`].
pub struct RecordView {
    pub name: Seq<char>,
    pub version: Seq<char>,
    pub dependencies: Seq<Seq<char>>,
}

impl View for PackageRecord {
    type V = RecordView;

    open spec fn view(&self) -> RecordView {
        RecordView {
            name: self.name@,
            version: self.version@,
            dependencies: self.dependencies@.map_values(|d: String| d@),
        }
    }
}

impl PartialEq for PackageRecord {
    fn eq(&self, other: &PackageRecord) -> (same: bool) {
        self.name == other.name && self.version == other.version
    }
}

impl vstd::std_specs::cmp::PartialEqSpecImpl for PackageRecord {
    open spec fn obeys_eq_spec() -> bool {
        true
    }

    open spec fn eq_spec(&self, other: &PackageRecord) -> bool {
        self.name@ == other.name@ && self.version@ == other.version@
    }
}

impl Eq for PackageRecord {

}

/// The contents of a list of records.
pub open spec fn record_views(records: Seq<PackageRecord>) -> Seq<RecordView> {
    records.map_values(|r: PackageRecord| r@)
}

/// The name under which a package version lies in the local inventory:
/// name, hyphen, version.
pub open spec fn inventory_key(name: Seq<char>, version: Seq<char>) -> Seq<char> {
    name + seq!['-'] + version
}

impl RecordView {
    /// The record's inventory key.
    pub open spec fn key(self) -> Seq<char> {
        inventory_key(self.name, self.version)
    }

    /// Whether the record names `target` among its dependencies.
    pub open spec fn depends_on(self, target: Seq<char>) -> bool {
        self.dependencies.contains(target)
    }
}

impl PackageRecord {
    /// The record's inventory key.
    pub fn key(&self) -> (key: String)
        ensures
            key@ == self@.key(),
    {
        proof {
            reveal_strlit("-");
        }
        let mut key = self.name.clone();
        key.append("-");
        key.append(self.version.as_str());
        key
    }

    /// Whether the record names `target` among its dependencies.
    pub fn depends_on(&self, target: &str) -> (found: bool)
        ensures
            found == self@.depends_on(target@),
    {
        let wanted = target.to_owned();
        let n = self.dependencies.len();
        let mut i: usize = 0;
        while i < n
            invariant
                n == self.dependencies.len(),
                i <= n,
                wanted@ == target@,
                forall|k: int| 0 <= k < i ==> self@.dependencies[k] != target@,
            decreases n - i,
        {
            if self.dependencies[i] == wanted {
                assert(self@.dependencies[i as int] == target@);
                return true;
            }
            i = i + 1;
        }
        false
    }
}

/// The records among `records` that depend on `target`, in their order.
pub open spec fn dependents(records: Seq<RecordView>, target: Seq<char>) -> Seq<RecordView> {
    records.filter(|r: RecordView| r.depends_on(target))
}

/// Keeps the records that depend on `target`, in their order.
pub fn find_dependents(records: Vec<PackageRecord>, target: &str) -> (found: Vec<PackageRecord>)
    ensures
        record_views(found@) == dependents(record_views(records@), target@),
{
    let mut found: Vec<PackageRecord> = Vec::new();
    let ghost all = record_views(records@);
    let ghost pred = |r: RecordView| r.depends_on(target@);
    proof {
        reveal(Seq::filter);
        assert(all.take(0) =~= Seq::<RecordView>::empty());
    }
    for record in it: records
        invariant
            it.seq() == records@,
            all == record_views(records@),
            pred == |r: RecordView| r.depends_on(target@),
            record_views(found@) == all.take(it.index() as int).filter(pred),
    {
        proof {
            let i = it.index() as int;
            assert(all.take(i + 1) =~= all.take(i).push(record@));
            all.take(i).lemma_filter_push(record@, pred);
        }
        if record.depends_on(target) {
            proof {
                assert(record_views(found@.push(record)) =~= record_views(found@).push(record@));
            }
            found.push(record);
        }
    }
    proof {
        assert(all.take(records@.len() as int) =~= all);
    }
    found
}

/// The name of a directory entry, if it could be read and decoded.
pub open spec fn entry_name(entry: Option<String>) -> Option<Seq<char>> {
    match entry {
        Some(name) => Some(name@),
        None => None,
    }
}

/// Whether one of the first `n` entries has the name `key`.
pub open spec fn named_among(entries: Seq<Option<String>>, n: int, key: Seq<char>) -> bool {
    exists|i: int| 0 <= i < n && i < entries.len() && entry_name(#[trigger] entries[i]) == Some(key)
}

/// The names that a directory listing holds: those of the entries that could
/// be read and decoded.
pub open spec fn names_in(entries: Seq<Option<String>>) -> Set<Seq<char>> {
    Set::new(|key: Seq<char>| named_among(entries, entries.len() as int, key))
}

/// Whether one of `names` is `key`.
pub open spec fn listed(names: Seq<String>, key: Seq<char>) -> bool {
    exists|k: int| 0 <= k < names.len() && (#[trigger] names[k])@ == key
}

/// Whether no name stands twice in `names`.
pub open spec fn distinct(names: Seq<String>) -> bool {
    forall|i: int, j: int|
        0 <= i < j < names.len() ==> (#[trigger] names[i])@ != (#[trigger] names[j])@
}

proof fn lemma_listed_push(names: Seq<String>, name: String, key: Seq<char>)
    ensures
        listed(names.push(name), key) <==> listed(names, key) || name@ == key,
{
    let grown = names.push(name);
    if listed(grown, key) {
        let k = choose|k: int| 0 <= k < grown.len() && (#[trigger] grown[k])@ == key;
        if k < names.len() {
            assert(names[k]@ == key);
        }
    }
    if listed(names, key) {
        let k = choose|k: int| 0 <= k < names.len() && (#[trigger] names[k])@ == key;
        assert(grown[k]@ == key);
    }
    if name@ == key {
        assert(grown[names.len() as int]@ == key);
    }
}

proof fn lemma_named_among_step(entries: Seq<Option<String>>, n: int, key: Seq<char>)
    requires
        0 <= n < entries.len(),
    ensures
        named_among(entries, n + 1, key) <==> named_among(entries, n, key) || entry_name(
            entries[n],
        ) == Some(key),
{
    if named_among(entries, n + 1, key) {
        let i = choose|i: int|
            0 <= i < n + 1 && i < entries.len() && entry_name(#[trigger] entries[i]) == Some(key);
        if i < n {
            assert(entry_name(entries[i]) == Some(key));
        }
    }
    if named_among(entries, n, key) {
        let i = choose|i: int|
            0 <= i < n && i < entries.len() && entry_name(#[trigger] entries[i]) == Some(key);
        assert(entry_name(entries[i]) == Some(key));
    }
    if entry_name(entries[n]) == Some(key) {
        assert(named_among(entries, n + 1, key));
    }
}

fn holds(names: &Vec<String>, key: &String) -> (found: bool)
    ensures
        found == listed(names@, key@),
{
    let n = names.len();
    let mut i: usize = 0;
    while i < n
        invariant
            n == names.len(),
            i <= n,
            forall|k: int| 0 <= k < i ==> (#[trigger] names@[k])@ != key@,
        decreases n - i,
    {
        if names[i] == *key {
            return true;
        }
        i = i + 1;
    }
    false
}

/// The package versions that are already unpacked locally, by inventory
/// key. Each name is held once.
#[derive(Debug, PartialEq, Eq)]
pub struct LocalCrates {
    listing: Vec<String>,
}

impl View for LocalCrates {
    type V = Set<Seq<char>>;

    closed spec fn view(&self) -> Set<Seq<char>> {
        Set::new(|key: Seq<char>| listed(self.listing@, key))
    }
}

impl LocalCrates {
    #[verifier::type_invariant]
    spec fn holds_each_name_once(self) -> bool {
        distinct(self.listing@)
    }

    /// Builds the inventory from the listing of the source directory. An
    /// entry that could not be read or decoded is `None` and counts as
    /// absent.
    pub fn new(entries: Vec<Option<String>>) -> (inventory: LocalCrates)
        ensures
            inventory@ == names_in(entries@),
    {
        let mut listing: Vec<String> = Vec::new();
        for entry in it: entries
            invariant
                it.seq() == entries@,
                distinct(listing@),
                forall|key: Seq<char>|
                    listed(listing@, key) <==> named_among(entries@, it.index() as int, key),
        {
            let ghost before = listing@;
            let ghost at = it.index() as int;
            match entry {
                Some(name) => {
                    if !holds(&listing, &name) {
                        listing.push(name);
                        proof {
                            assert forall|i: int, j: int|
                                0 <= i < j < listing@.len() implies (#[trigger] listing@[i])@ != (
                            #[trigger] listing@[j])@ by {
                                if j == before.len() {
                                    assert(before[i]@ != name@);
                                }
                            }
                        }
                    }
                    proof {
                        assert forall|key: Seq<char>| listed(listing@, key) <==> named_among(
                            entries@,
                            at + 1,
                            key,
                        ) by {
                            lemma_listed_push(before, name, key);
                            lemma_named_among_step(entries@, at, key);
                        }
                    }
                },
                None => {
                    proof {
                        assert forall|key: Seq<char>| listed(listing@, key) <==> named_among(
                            entries@,
                            at + 1,
                            key,
                        ) by {
                            lemma_named_among_step(entries@, at, key);
                        }
                    }
                },
            }
        }
        let inventory = LocalCrates { listing };
        proof {
            assert(inventory@ =~= names_in(entries@));
        }
        inventory
    }

    /// The number of names in the inventory.
    pub fn len(&self) -> (count: usize)
        ensures
            self@.finite(),
            count == self@.len(),
    {
        proof {
            use_type_invariant(self);
            let names = self.listing@.map_values(|name: String| name@);
            assert(names.no_duplicates()) by {
                assert forall|i: int, j: int|
                    0 <= i < names.len() && 0 <= j < names.len() && i != j implies names[i]
                    != names[j] by {
                    if i < j {
                        assert(self.listing@[i]@ != self.listing@[j]@);
                    } else {
                        assert(self.listing@[j]@ != self.listing@[i]@);
                    }
                }
            }
            names.unique_seq_to_set();
            assert(self@ =~= names.to_set()) by {
                assert forall|key: Seq<char>| self@.contains(key) <==> names.to_set().contains(
                    key,
                ) by {
                    if listed(self.listing@, key) {
                        let k = choose|k: int|
                            0 <= k < self.listing@.len() && (#[trigger] self.listing@[k])@ == key;
                        assert(names[k] == key);
                    }
                    if names.contains(key) {
                        let k = choose|k: int| 0 <= k < names.len() && names[k] == key;
                        assert(self.listing@[k]@ == key);
                    }
                }
            }
        }
        self.listing.len()
    }

    /// Whether the inventory holds an entry of exactly this name.
    pub fn has_key(&self, key: &String) -> (found: bool)
        ensures
            found == self@.contains(key@),
    {
        holds(&self.listing, key)
    }

    /// Whether the version of the package that `record` describes is
    /// already unpacked locally: whether an entry is named by its key,
    /// letter for letter.
    pub fn contains(&self, record: &PackageRecord) -> (found: bool)
        ensures
            found == self@.contains(record@.key()),
    {
        let key = record.key();
        self.has_key(&key)
    }
}

/// The download address that `crates_index` builds for a package version
/// from the index configuration's `dl` pattern, if it builds one.
pub uninterp spec fn download_url(dl: Seq<char>, name: Seq<char>, version: Seq<char>) -> Option<
    Seq<char>,
>;

/// Calls `crates_index::IndexConfig::download_url` on a configuration with
/// the given `dl` pattern. The result is determined by the pattern, the name
/// and the version alone.
#[verifier::external_body]
fn resolve_url(dl: &str, name: &str, version: &str) -> (url: Option<String>)
    ensures
        text_of(url) == download_url(dl@, name@, version@),
{
    let config = crates_index::IndexConfig { dl: dl.to_owned(), api: None };
    config.download_url(name, version)
}

/// One download that a run has to make.
#[derive(Clone, Debug, PartialEq, Eq)]
pub struct FetchTarget {
    pub url: String,
}

impl View for FetchTarget {
    type V = Seq<char>;

    open spec fn view(&self) -> Seq<char> {
        self.url@
    }
}

/// The addresses of a list of targets.
pub open spec fn target_views(targets: Seq<FetchTarget>) -> Seq<Seq<char>> {
    targets.map_values(|t: FetchTarget| t@)
}

/// The address to fetch a candidate from: none if it is in the inventory
/// already, and none if the configuration yields no address for it.
pub open spec fn fetch_url(record: RecordView, inventory: Set<Seq<char>>, dl: Seq<char>) -> Option<
    Seq<char>,
> {
    if inventory.contains(record.key()) {
        None
    } else {
        download_url(dl, record.name, record.version)
    }
}

/// The addresses to fetch for `candidates`, in their order.
pub open spec fn planned(candidates: Seq<RecordView>, inventory: Set<Seq<char>>, dl: Seq<char>) -> Seq<
    Seq<char>,
> {
    candidates.filter_map(|r: RecordView| fetch_url(r, inventory, dl))
}

/// Plans the downloads: for each candidate in order, none if it is in the
/// inventory already or has no address, else its address.
pub fn plan(candidates: &Vec<PackageRecord>, inventory: &LocalCrates, dl: &str) -> (targets: Vec<
    FetchTarget,
>)
    ensures
        target_views(targets@) == planned(record_views(candidates@), inventory@, dl@),
{
    let mut targets: Vec<FetchTarget> = Vec::new();
    let ghost all = record_views(candidates@);
    let ghost chosen = |r: RecordView| fetch_url(r, inventory@, dl@);
    let n = candidates.len();
    let mut i: usize = 0;
    proof {
        assert(all.take(0) =~= Seq::<RecordView>::empty());
    }
    while i < n
        invariant
            n == candidates.len(),
            i <= n,
            all == record_views(candidates@),
            chosen == |r: RecordView| fetch_url(r, inventory@, dl@),
            target_views(targets@) == all.take(i as int).filter_map(chosen),
        decreases n - i,
    {
        let record = &candidates[i];
        proof {
            all.lemma_filter_map_take_succ(chosen, i as int);
        }
        if !inventory.contains(record) {
            match resolve_url(dl, record.name.as_str(), record.version.as_str()) {
                Some(url) => {
                    let target = FetchTarget { url };
                    proof {
                        assert(target_views(targets@.push(target)) =~= target_views(
                            targets@,
                        ).push(target@));
                    }
                    targets.push(target);
                },
                None => {},
            }
        }
        i = i + 1;
    }
    proof {
        assert(all.take(n as int) =~= all);
    }
    targets
}

/// The addresses that have to be fetched for an index: those of the records
/// that depend on `target` and are not in the inventory.
pub open spec fn wanted(
    records: Seq<RecordView>,
    target: Seq<char>,
    inventory: Set<Seq<char>>,
    dl: Seq<char>,
) -> Set<Seq<char>> {
    Set::new(
        |url: Seq<char>|
            exists|r: RecordView|
                #[trigger] records.contains(r) && r.depends_on(target) && !inventory.contains(
                    r.key(),
                ) && download_url(dl, r.name, r.version) == Some(url),
    )
}

/// A record is among the dependents exactly if it is among the records and
/// depends on the target.
pub proof fn lemma_dependents_contains(records: Seq<RecordView>, target: Seq<char>, r: RecordView)
    ensures
        dependents(records, target).contains(r) <==> records.contains(r) && r.depends_on(target),
{
    let pred = |r: RecordView| r.depends_on(target);
    let kept = records.filter(pred);
    if kept.contains(r) {
        records.lemma_filter_contains_rev(pred, r);
        let i = choose|i: int| 0 <= i < kept.len() && kept[i] == r;
        records.lemma_filter_pred(pred, i);
    }
    if records.contains(r) && r.depends_on(target) {
        let i = choose|i: int| 0 <= i < records.len() && records[i] == r;
        records.lemma_filter_contains(pred, i);
    }
}

/// An address is planned exactly if it is the address of a candidate that
/// is not in the inventory.
pub proof fn lemma_planned_contains(
    candidates: Seq<RecordView>,
    inventory: Set<Seq<char>>,
    dl: Seq<char>,
    url: Seq<char>,
)
    ensures
        planned(candidates, inventory, dl).contains(url) <==> exists|r: RecordView|
            #[trigger] candidates.contains(r) && fetch_url(r, inventory, dl) == Some(url),
    decreases candidates.len(),
{
    let chosen = |r: RecordView| fetch_url(r, inventory, dl);
    if planned(candidates, inventory, dl).contains(url) {
        candidates.lemma_filter_map_contains(chosen, url);
        let r = choose|r: RecordView| #[trigger] candidates.contains(r) && chosen(r) == Some(url);
        assert(candidates.contains(r) && fetch_url(r, inventory, dl) == Some(url));
    }
    if exists|r: RecordView|
        #[trigger] candidates.contains(r) && fetch_url(r, inventory, dl) == Some(url) {
        let r = choose|r: RecordView|
            #[trigger] candidates.contains(r) && fetch_url(r, inventory, dl) == Some(url);
        let i = choose|i: int| 0 <= i < candidates.len() && candidates[i] == r;
        let rest = candidates.drop_last();
        let all = planned(candidates, inventory, dl);
        if i == candidates.len() - 1 {
            assert(all.last() == url);
        } else {
            assert(rest[i] == r);
            assert(rest.contains(r));
            lemma_planned_contains(rest, inventory, dl, url);
            let before = planned(rest, inventory, dl);
            let j = choose|j: int| 0 <= j < before.len() && before[j] == url;
            assert(all[j] == url);
        }
    }
}

/// The set of addresses that a run fetches is the set of the records that
/// depend on the target, less those in the local inventory (and less those
/// for which the configuration yields no address).
pub proof fn lemma_plan_is_difference(
    records: Seq<RecordView>,
    target: Seq<char>,
    inventory: Set<Seq<char>>,
    dl: Seq<char>,
)
    ensures
        planned(dependents(records, target), inventory, dl).to_set() == wanted(
            records,
            target,
            inventory,
            dl,
        ),
{
    let found = dependents(records, target);
    let plan = planned(found, inventory, dl);
    assert forall|url: Seq<char>| plan.to_set().contains(url) <==> wanted(
        records,
        target,
        inventory,
        dl,
    ).contains(url) by {
        lemma_planned_contains(found, inventory, dl, url);
        if plan.contains(url) {
            let r = choose|r: RecordView|
                #[trigger] found.contains(r) && fetch_url(r, inventory, dl) == Some(url);
            lemma_dependents_contains(records, target, r);
            assert(records.contains(r));
        }
        if wanted(records, target, inventory, dl).contains(url) {
            let r = choose|r: RecordView|
                #[trigger] records.contains(r) && r.depends_on(target) && !inventory.contains(
                    r.key(),
                ) && download_url(dl, r.name, r.version) == Some(url);
            lemma_dependents_contains(records, target, r);
            assert(found.contains(r) && fetch_url(r, inventory, dl) == Some(url));
        }
    }
    assert(plan.to_set() =~= wanted(records, target, inventory, dl));
}

/// In whatever order, and however often, the index hands out its records:
/// the same records give the same set of addresses to fetch.
pub proof fn lemma_plan_ignores_order(
    a: Seq<RecordView>,
    b: Seq<RecordView>,
    target: Seq<char>,
    inventory: Set<Seq<char>>,
    dl: Seq<char>,
)
    requires
        a.to_set() == b.to_set(),
    ensures
        planned(dependents(a, target), inventory, dl).to_set() == planned(
            dependents(b, target),
            inventory,
            dl,
        ).to_set(),
{
    lemma_plan_is_difference(a, target, inventory, dl);
    lemma_plan_is_difference(b, target, inventory, dl);
    assert forall|r: RecordView| a.contains(r) <==> b.contains(r) by {
        assert(a.to_set().contains(r) == a.contains(r));
        assert(b.to_set().contains(r) == b.contains(r));
    }
    assert(wanted(a, target, inventory, dl) =~= wanted(b, target, inventory, dl));
}

/// The inventory key tells the versions of a package apart: with another
/// version, a package has another key.
pub proof fn lemma_key_tells_versions_apart(name: Seq<char>, one: Seq<char>, other: Seq<char>)
    requires
        one != other,
    ensures
        inventory_key(name, one) != inventory_key(name, other),
{
    let a = inventory_key(name, one);
    let b = inventory_key(name, other);
    if a == b {
        let skip = (name.len() + 1) as int;
        assert(a.skip(skip) =~= one);
        assert(b.skip(skip) =~= other);
    }
}

/// A package whose only local entry is of another version is not counted
/// as present.
pub proof fn lemma_other_version_is_absent(
    inventory: Set<Seq<char>>,
    name: Seq<char>,
    local: Seq<char>,
    asked: Seq<char>,
)
    requires
        local != asked,
        inventory == set![inventory_key(name, local)],
    ensures
        !inventory.contains(inventory_key(name, asked)),
{
    lemma_key_tells_versions_apart(name, local, asked);
}

} // verus!
