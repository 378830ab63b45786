//! Installed packages, grouped by package number and version string.
use vstd::prelude::*;
use crate::info::{
    blank_model, is_number_line, law_invalid_number_is_unknown, line_value, parse_info,
    parse_package_info, InfoModel, PackageInfo,
};
use crate::number::UNKNOWN_PACKAGE_NUMBER;
use crate::text::{lines_of, signed_value};

verus! {

/// The constraint that every version meets.
pub const ANY_VERSION: &'static str = "*";

/// An installed package: its metadata record, where it was found, and the
/// constraint it was selected with.
#[derive(Debug, Clone)]
pub struct Package {
    /// The installation root the package was found under
    pub home: String,
    /// The version constraint the package was selected with
    pub version_constraint: String,
    /// The directory of the package
    pub path: String,
    /// What the package's metadata file says
    pub info: PackageInfo,
}

/// What a package handle holds, as mathematical values.
pub struct PackageModel {
    pub home: Seq<char>,
    pub version_constraint: Seq<char>,
    pub path: Seq<char>,
    pub info: InfoModel,
}

impl View for Package {
    type V = PackageModel;

    open spec fn view(&self) -> PackageModel {
        PackageModel {
            home: self.home@,
            version_constraint: self.version_constraint@,
            path: self.path@,
            info: self.info@,
        }
    }
}

/// The key a package is registered under: its number and its raw version string.
pub open spec fn key_of(p: PackageModel) -> (i64, Seq<char>) {
    (p.info.package_number, p.info.version)
}

/// The registry that a sequence of packages gives, registered from first to last:
/// of two packages with one key, the later one stays.
pub open spec fn group_spec(ps: Seq<Package>) -> Map<(i64, Seq<char>), PackageModel>
    decreases ps.len(),
{
    if ps.len() == 0 {
        Map::empty()
    } else {
        group_spec(ps.drop_last()).insert(key_of(ps.last()@), ps.last()@)
    }
}

impl Package {
    /// A package with a blank record, found at `path` under `home`, selected by no constraint.
    pub fn blank_in_at(home: String, path: String) -> (r: Package)
        ensures
            r.home@ == home@,
            r.path@ == path@,
            r.version_constraint@ == ANY_VERSION@,
            r.info@ == blank_model(),
    {
        Package {
            home,
            version_constraint: ANY_VERSION.to_owned(),
            path,
            info: PackageInfo::default(),
        }
    }

    /// The package whose metadata file at `path` under `home` holds `text`.
    pub fn from_metadata(home: String, path: String, text: &str) -> (r: Package)
        ensures
            r.home@ == home@,
            r.path@ == path@,
            r.version_constraint@ == ANY_VERSION@,
            r.info@ == parse_info(text@),
    {
        Package { home, version_constraint: ANY_VERSION.to_owned(), path, info: parse_package_info(text) }
    }
}

/// Installed packages, at most one for each package number and version string.
pub struct PackageRegistry {
    pub(crate) entries: Vec<Package>,
    pub(crate) model: Ghost<Map<(i64, Seq<char>), PackageModel>>,
}

impl View for PackageRegistry {
    type V = Map<(i64, Seq<char>), PackageModel>;

    closed spec fn view(&self) -> Map<(i64, Seq<char>), PackageModel> {
        self.model@
    }
}

/// Whether two packages are registered under one key.
fn same_key(a: &Package, b: &Package) -> (r: bool)
    ensures
        r == (key_of(a@) == key_of(b@)),
{
    a.info.package_number == b.info.package_number && a.info.version == b.info.version
}

impl PackageRegistry {
    /// The entries agree with the map: one entry for each key, none twice.
    pub closed spec fn wf(&self) -> bool {
        &&& forall|i: int|
            0 <= i < self.entries@.len() ==> #[trigger] self.model@.contains_key(
                key_of(self.entries@[i]@),
            ) && self.model@[key_of(self.entries@[i]@)] == self.entries@[i]@
        &&& forall|k: (i64, Seq<char>)|
            #[trigger] self.model@.contains_key(k) ==> exists|i: int|
                0 <= i < self.entries@.len() && key_of(#[trigger] self.entries@[i]@) == k
        &&& forall|i: int, j: int|
            0 <= i < j < self.entries@.len() ==> key_of(#[trigger] self.entries@[i]@)
                != key_of(#[trigger] self.entries@[j]@)
    }

    /// An empty registry.
    pub fn new() -> (r: PackageRegistry)
        ensures
            r.wf(),
            r@ == Map::<(i64, Seq<char>), PackageModel>::empty(),
    {
        PackageRegistry { entries: Vec::new(), model: Ghost(Map::empty()) }
    }

    /// Registers a package; one already registered under its key is replaced.
    pub fn insert(&mut self, p: Package)
        requires
            old(self).wf(),
        ensures
            final(self).wf(),
            final(self)@ == old(self)@.insert(key_of(p@), p@),
    {
        let ghost k = key_of(p@);
        let mut i: usize = 0;
        while i < self.entries.len() && !same_key(&self.entries[i], &p)
            invariant
                self.wf(),
                *self == *old(self),
                i <= self.entries@.len(),
                k == key_of(p@),
                forall|j: int| 0 <= j < i ==> key_of(#[trigger] self.entries@[j]@) != k,
            decreases self.entries@.len() - i,
        {
            i = i + 1;
        }
        let ghost old_entries = self.entries@;
        if i < self.entries.len() {
            assert(key_of(self.entries@[i as int]@) == k);
            self.entries[i] = p;
            self.model = Ghost(self.model@.insert(k, self.entries@[i as int]@));
            assert forall|j: int| 0 <= j < self.entries@.len() && j != i implies key_of(
                #[trigger] self.entries@[j]@,
            ) != k by {
                assert(self.entries@[j] == old_entries[j]);
                if j < i {
                } else {
                    assert(key_of(old_entries[i as int]@) != key_of(old_entries[j]@));
                }
            }
            assert forall|kk: (i64, Seq<char>)| #[trigger]
                self.model@.contains_key(kk) implies exists|j: int|
                0 <= j < self.entries@.len() && key_of(#[trigger] self.entries@[j]@) == kk by {
                if kk != k {
                    let j = choose|j: int|
                        0 <= j < old_entries.len() && key_of(#[trigger] old_entries[j]@) == kk;
                    assert(self.entries@[j] == old_entries[j]);
                } else {
                    assert(key_of(self.entries@[i as int]@) == kk);
                }
            }
            assert forall|a: int, b: int|
                0 <= a < b < self.entries@.len() implies key_of(#[trigger] self.entries@[a]@)
                != key_of(#[trigger] self.entries@[b]@) by {
                if a != i && b != i {
                    assert(self.entries@[a] == old_entries[a]);
                    assert(self.entries@[b] == old_entries[b]);
                }
            }
            assert forall|j: int| 0 <= j < self.entries@.len() implies #[trigger]
                self.model@.contains_key(key_of(self.entries@[j]@))
                && self.model@[key_of(self.entries@[j]@)] == self.entries@[j]@ by {
                if j != i {
                    assert(self.entries@[j] == old_entries[j]);
                }
            }
        } else {
            self.entries.push(p);
            self.model = Ghost(self.model@.insert(k, p@));
            assert forall|kk: (i64, Seq<char>)| #[trigger]
                self.model@.contains_key(kk) implies exists|j: int|
                0 <= j < self.entries@.len() && key_of(#[trigger] self.entries@[j]@) == kk by {
                if kk != k {
                    let j = choose|j: int|
                        0 <= j < old_entries.len() && key_of(#[trigger] old_entries[j]@) == kk;
                    assert(self.entries@[j] == old_entries[j]);
                } else {
                    assert(key_of(self.entries@[old_entries.len() as int]@) == kk);
                }
            }
            assert forall|j: int| 0 <= j < self.entries@.len() implies #[trigger]
                self.model@.contains_key(key_of(self.entries@[j]@))
                && self.model@[key_of(self.entries@[j]@)] == self.entries@[j]@ by {
                if j < old_entries.len() {
                    assert(self.entries@[j] == old_entries[j]);
                }
            }
            assert forall|a: int, b: int|
                0 <= a < b < self.entries@.len() implies key_of(#[trigger] self.entries@[a]@)
                != key_of(#[trigger] self.entries@[b]@) by {
                assert(self.entries@[a] == old_entries[a]);
                if b < old_entries.len() {
                    assert(self.entries@[b] == old_entries[b]);
                }
            }
        }
    }

    /// The registry of a list of packages, registered in order.
    pub fn from_packages(ps: Vec<Package>) -> (r: PackageRegistry)
        ensures
            r.wf(),
            r@ == group_spec(ps@),
    {
        let mut ps = ps;
        let ghost all = ps@;
        let n = ps.len();
        let mut rev: Vec<Package> = Vec::new();
        while ps.len() > 0
            invariant
                n == all.len(),
                rev@.len() + ps@.len() == n,
                ps@ == all.subrange(0, ps@.len() as int),
                forall|j: int| 0 <= j < rev@.len() ==> #[trigger] rev@[j] == all[n - 1 - j],
            decreases ps@.len(),
        {
            let p = ps.pop().unwrap();
            rev.push(p);
            assert(ps@ =~= all.subrange(0, ps@.len() as int));
        }
        let mut r = PackageRegistry::new();
        let mut i: usize = 0;
        while rev.len() > 0
            invariant
                r.wf(),
                n == all.len(),
                i <= n,
                rev@.len() == n - i,
                forall|j: int| 0 <= j < rev@.len() ==> #[trigger] rev@[j] == all[n - 1 - j],
                r@ == group_spec(all.subrange(0, i as int)),
            decreases rev@.len(),
        {
            let p = rev.pop().unwrap();
            assert(p == all[i as int]);
            assert(all.subrange(0, i + 1).drop_last() =~= all.subrange(0, i as int));
            r.insert(p);
            i = i + 1;
        }
        assert(all.subrange(0, n as int) =~= all);
        r
    }

    /// The package registered under a number and a version string, if any.
    pub fn get(&self, number: i64, version: &str) -> (r: Option<&Package>)
        requires
            self.wf(),
        ensures
            self@.contains_key((number, version@)) ==> r is Some && r->0@ == self@[(
                number,
                version@,
            )],
            !self@.contains_key((number, version@)) ==> r is None,
    {
        let wanted = version.to_owned();
        let mut i: usize = 0;
        while i < self.entries.len()
            invariant
                self.wf(),
                wanted@ == version@,
                i <= self.entries@.len(),
                forall|j: int| 0 <= j < i ==> key_of(#[trigger] self.entries@[j]@) != (
                    number,
                    version@,
                ),
            decreases self.entries@.len() - i,
        {
            if self.entries[i].info.package_number == number && self.entries[i].info.version
                == wanted {
                assert(key_of(self.entries@[i as int]@) == (number, version@));
                return Some(&self.entries[i]);
            }
            i = i + 1;
        }
        proof {
            if self@.contains_key((number, version@)) {
                let j = choose|j: int|
                    0 <= j < self.entries@.len() && key_of(#[trigger] self.entries@[j]@) == (
                        number,
                        version@,
                    );
                assert(false);
            }
        }
        None
    }

    /// Whether any package with this number is registered.
    pub fn contains_number(&self, number: i64) -> (r: bool)
        requires
            self.wf(),
        ensures
            r == exists|v: Seq<char>| self@.contains_key((number, v)),
    {
        let mut i: usize = 0;
        while i < self.entries.len()
            invariant
                self.wf(),
                i <= self.entries@.len(),
                forall|j: int| 0 <= j < i ==> (#[trigger] self.entries@[j]@).info.package_number != number,
            decreases self.entries@.len() - i,
        {
            if self.entries[i].info.package_number == number {
                assert(self.model@.contains_key(key_of(self.entries@[i as int]@)));
                assert(self@.contains_key((number, self.entries@[i as int]@.info.version)));
                return true;
            }
            i = i + 1;
        }
        proof {
            if exists|v: Seq<char>| self@.contains_key((number, v)) {
                let v = choose|v: Seq<char>| self@.contains_key((number, v));
                let j = choose|j: int|
                    0 <= j < self.entries@.len() && key_of(#[trigger] self.entries@[j]@) == (
                        number,
                        v,
                    );
                assert(false);
            }
        }
        false
    }

    /// Every registered package, each once.
    pub fn packages(&self) -> (r: &Vec<Package>)
        requires
            self.wf(),
        ensures
            forall|i: int|
                0 <= i < r@.len() ==> #[trigger] self@.contains_key(key_of(r@[i]@))
                    && self@[key_of(r@[i]@)] == r@[i]@,
            forall|k: (i64, Seq<char>)|
                #[trigger] self@.contains_key(k) ==> exists|i: int|
                    0 <= i < r@.len() && key_of(#[trigger] r@[i]@) == k,
            forall|i: int, j: int|
                0 <= i < j < r@.len() ==> key_of(#[trigger] r@[i]@) != key_of(#[trigger] r@[j]@),
    {
        assert forall|i: int| 0 <= i < self.entries@.len() implies #[trigger] self@.contains_key(
            key_of(self.entries@[i]@),
        ) && self@[key_of(self.entries@[i]@)] == self.entries@[i]@ by {
            assert(self.model@.contains_key(key_of(self.entries@[i]@)));
        }
        &self.entries
    }
}

/// Of the packages registered under one key, exactly one entry stays: the last one.
pub proof fn law_grouping_keeps_last(ps: Seq<Package>, j: int)
    requires
        0 <= j < ps.len(),
        forall|k: int| j < k < ps.len() ==> key_of(#[trigger] ps[k]@) != key_of(ps[j]@),
    ensures
        group_spec(ps).contains_key(key_of(ps[j]@)),
        group_spec(ps)[key_of(ps[j]@)] == ps[j]@,
    decreases ps.len(),
{
    if j < ps.len() - 1 {
        assert forall|k: int| j < k < ps.drop_last().len() implies key_of(
            #[trigger] ps.drop_last()[k]@,
        ) != key_of(ps.drop_last()[j]@) by {
            assert(ps.drop_last()[k] == ps[k]);
        }
        law_grouping_keeps_last(ps.drop_last(), j);
        assert(ps.drop_last()[j] == ps[j]);
        assert(key_of(ps.last()@) != key_of(ps[j]@));
    }
}

/// The registry holds a key exactly where some package has it.
pub proof fn law_grouping_keys(ps: Seq<Package>, k: (i64, Seq<char>))
    ensures
        group_spec(ps).contains_key(k) <==> exists|i: int| 0 <= i < ps.len() && key_of(#[trigger] ps[i]@) == k,
    decreases ps.len(),
{
    if ps.len() > 0 {
        law_grouping_keys(ps.drop_last(), k);
        if exists|i: int| 0 <= i < ps.drop_last().len() && key_of(#[trigger] ps.drop_last()[i]@) == k {
            let i = choose|i: int| 0 <= i < ps.drop_last().len() && key_of(#[trigger] ps.drop_last()[i]@) == k;
            assert(ps[i] == ps.drop_last()[i]);
        }
        if exists|i: int| 0 <= i < ps.len() && key_of(#[trigger] ps[i]@) == k {
            let i = choose|i: int| 0 <= i < ps.len() && key_of(#[trigger] ps[i]@) == k;
            if i < ps.len() - 1 {
                assert(ps.drop_last()[i] == ps[i]);
            }
        }
    }
}

/// A package whose metadata text has no valid `package-number` line is registered
/// under the number -1.
pub proof fn law_unknown_number_grouped(ps: Seq<Package>, j: int, text: Seq<char>)
    requires
        0 <= j < ps.len(),
        ps[j].info@ == parse_info(text),
        forall|i: int|
            0 <= i < lines_of(text).len() && is_number_line(#[trigger] lines_of(text)[i])
                ==> signed_value(line_value(lines_of(text)[i])) is None,
    ensures
        group_spec(ps).contains_key((UNKNOWN_PACKAGE_NUMBER, ps[j].info@.version)),
{
    law_invalid_number_is_unknown(text);
    law_grouping_keys(ps, (UNKNOWN_PACKAGE_NUMBER, ps[j].info@.version));
    assert(key_of(ps[j]@) == (UNKNOWN_PACKAGE_NUMBER, ps[j].info@.version));
}

} // verus!
