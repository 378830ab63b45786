//! Choosing the best installed version of a package under a version constraint.
//!
//! Versions and constraints are parsed and compared by the `versions` crate; the
//! names below stand for what its functions return.
use vstd::prelude::*;
use crate::error::PackageError;
use crate::registry::{key_of, Package, PackageModel, PackageRegistry, ANY_VERSION};
use versions::{Requirement, Versioning};

verus! {

/// Whether `versions::Versioning::new` accepts a version string.
pub uninterp spec fn is_versioning(v: Seq<char>) -> bool;

/// Whether the version `a` orders before the version `b` under `versions::Versioning`'s `Ord`.
pub uninterp spec fn versioning_below(a: Seq<char>, b: Seq<char>) -> bool;

/// Whether `versions::Requirement::new` accepts a constraint.
pub uninterp spec fn is_requirement(c: Seq<char>) -> bool;

/// Whether `versions::Requirement::matches` accepts the version `v` under the constraint `c`.
pub uninterp spec fn requirement_admits(c: Seq<char>, v: Seq<char>) -> bool;

/// Relies on `versions::Versioning::new`: whether the text parses as a version.
#[verifier::external_body]
fn version_is_valid(v: &str) -> (r: bool)
    ensures
        r == is_versioning(v@),
{
    Versioning::new(v).is_some()
}

/// Relies on `versions::Versioning::new` and `Versioning`'s `Ord`: whether the parsed
/// version `a` orders before the parsed version `b`.
#[verifier::external_body]
fn version_below(a: &str, b: &str) -> (r: bool)
    ensures
        r == versioning_below(a@, b@),
{
    Versioning::new(a) < Versioning::new(b)
}

/// Relies on `versions::Requirement::new`: whether the text parses as a constraint.
#[verifier::external_body]
fn requirement_is_valid(c: &str) -> (r: bool)
    ensures
        r == is_requirement(c@),
{
    Requirement::new(c).is_some()
}

/// Relies on `versions::Requirement::matches`: whether the parsed version `v` meets
/// the parsed constraint `c`.
#[verifier::external_body]
fn requirement_matches(c: &str, v: &str) -> (r: bool)
    ensures
        r == requirement_admits(c@, v@),
{
    match (Requirement::new(c), Versioning::new(v)) {
        (Some(q), Some(x)) => q.matches(&x),
        _ => false,
    }
}

/// A version string registered under `number` that parses and meets the constraint.
pub open spec fn is_candidate(
    reg: Map<(i64, Seq<char>), PackageModel>,
    number: i64,
    c: Seq<char>,
    v: Seq<char>,
) -> bool {
    reg.contains_key((number, v)) && is_versioning(v) && requirement_admits(c, v)
}

/// A candidate that no other candidate orders above.
pub open spec fn is_best(
    reg: Map<(i64, Seq<char>), PackageModel>,
    number: i64,
    c: Seq<char>,
    v: Seq<char>,
) -> bool {
    is_candidate(reg, number, c, v) && forall|w: Seq<char>|
        is_candidate(reg, number, c, w) ==> !#[trigger] versioning_below(v, w)
}

/// Whether any package with this number is registered.
pub open spec fn has_number(reg: Map<(i64, Seq<char>), PackageModel>, number: i64) -> bool {
    exists|v: Seq<char>| reg.contains_key((number, v))
}

/// Every version that meets `c1` meets `c2` too.
pub open spec fn constraint_within(c1: Seq<char>, c2: Seq<char>) -> bool {
    forall|v: Seq<char>| is_versioning(v) && #[trigger] requirement_admits(c1, v) ==> requirement_admits(c2, v)
}

/// What resolving `number` under the constraint `c` in a registry read from `home` gives:
/// an error naming the number where none is registered, an error naming the constraint
/// where it does not parse, an error where no registered version meets it, and else a
/// copy of the registered package of the best version, carrying the constraint.
pub open spec fn resolution(
    reg: Map<(i64, Seq<char>), PackageModel>,
    home: Seq<char>,
    number: i64,
    c: Seq<char>,
    r: Result<Package, PackageError>,
) -> bool {
    &&& !has_number(reg, number) ==> (r matches Err(PackageError::PackageNotFound {
        number: m,
        home: h,
    }) && m == number && h@ == home)
    &&& has_number(reg, number) && !is_requirement(c) ==> (r matches Err(
        PackageError::InvalidConstraint { constraint: cc },
    ) && cc@ == c)
    &&& has_number(reg, number) && is_requirement(c) && !(exists|v: Seq<char>|
        is_best(reg, number, c, v)) ==> (r matches Err(
        PackageError::NoMatchingVersion { number: m, constraint: cc, home: h },
    ) && m == number && cc@ == c && h@ == home)
    &&& has_number(reg, number) && is_requirement(c) && (exists|v: Seq<char>|
        is_best(reg, number, c, v)) ==> r is Ok
    &&& r is Ok ==> {
        let p = r->Ok_0;
        &&& p.info.package_number == number
        &&& is_best(reg, number, c, p.info@.version)
        &&& p.info@ == reg[(number, p.info@.version)].info
        &&& p.home@ == reg[(number, p.info@.version)].home
        &&& p.path@ == reg[(number, p.info@.version)].path
        &&& p.version_constraint@ == c
    }
}

/// Whether the package at position `i` is a candidate that no candidate orders above.
fn undominated(entries: &Vec<Package>, i: usize, constraint: &str, number: i64) -> (r: bool)
    requires
        i < entries@.len(),
    ensures
        r == (entries@[i as int]@.info.package_number == number && is_versioning(
            entries@[i as int]@.info.version,
        ) && requirement_admits(constraint@, entries@[i as int]@.info.version) && forall|j: int|
            0 <= j < entries@.len() && (#[trigger] entries@[j]@).info.package_number == number
                && is_versioning(entries@[j]@.info.version) && requirement_admits(
                constraint@,
                entries@[j]@.info.version,
            ) ==> !versioning_below(
                entries@[i as int]@.info.version,
                entries@[j]@.info.version,
            )),
{
    let v = entries[i].info.version.as_str();
    if entries[i].info.package_number != number || !version_is_valid(v)
        || !requirement_matches(constraint, v) {
        return false;
    }
    let mut j: usize = 0;
    while j < entries.len()
        invariant
            i < entries@.len(),
            j <= entries@.len(),
            v@ == entries@[i as int]@.info.version,
            forall|k: int|
                0 <= k < j && (#[trigger] entries@[k]@).info.package_number == number
                    && is_versioning(entries@[k]@.info.version) && requirement_admits(
                    constraint@,
                    entries@[k]@.info.version,
                ) ==> !versioning_below(v@, entries@[k]@.info.version),
        decreases entries@.len() - j,
    {
        let w = entries[j].info.version.as_str();
        if entries[j].info.package_number == number && version_is_valid(w)
            && requirement_matches(constraint, w) && version_below(v, w) {
            assert(versioning_below(entries@[i as int]@.info.version, entries@[j as int]@.info.version));
            return false;
        }
        j = j + 1;
    }
    true
}

/// Resolves a package number and a version constraint to the installed package of the
/// highest version that meets the constraint. `home` is the root the registry was read
/// from and is named in errors.
pub fn resolve(registry: &PackageRegistry, home: &str, number: i64, constraint: &str) -> (r:
    Result<Package, PackageError>)
    requires
        registry.wf(),
    ensures
        resolution(registry@, home@, number, constraint@, r),
{
    if !registry.contains_number(number) {
        return Err(PackageError::PackageNotFound { number, home: home.to_owned() });
    }
    if !requirement_is_valid(constraint) {
        return Err(PackageError::InvalidConstraint { constraint: constraint.to_owned() });
    }
    let entries = registry.packages();
    assert(forall|k: int|
        0 <= k < entries@.len() ==> #[trigger] registry@.contains_key(key_of(entries@[k]@))
            && registry@[key_of(entries@[k]@)] == entries@[k]@);
    let mut i: usize = 0;
    while i < entries.len()
        invariant
            registry.wf(),
            is_requirement(constraint@),
            i <= entries@.len(),
            forall|k: int|
                0 <= k < entries@.len() ==> #[trigger] registry@.contains_key(
                    key_of(entries@[k]@),
                ) && registry@[key_of(entries@[k]@)] == entries@[k]@,
            forall|kk: (i64, Seq<char>)|
                #[trigger] registry@.contains_key(kk) ==> exists|k: int|
                    0 <= k < entries@.len() && key_of(#[trigger] entries@[k]@) == kk,
            forall|k: int|
                0 <= k < i ==> !is_best(
                    registry@,
                    number,
                    constraint@,
                    (#[trigger] entries@[k]@).info.version,
                ) || entries@[k]@.info.package_number != number,
        decreases entries@.len() - i,
    {
        let found = undominated(entries, i, constraint, number);
        let ghost vi = entries@[i as int]@.info.version;
        if found {
            assert(key_of(entries@[i as int]@) == (number, vi));
            assert(registry@.contains_key((number, vi)));
            assert forall|w: Seq<char>| is_candidate(
                registry@,
                number,
                constraint@,
                w,
            ) implies !#[trigger] versioning_below(vi, w) by {
                let k = choose|k: int| 0 <= k < entries@.len() && key_of(#[trigger] entries@[k]@) == (number, w);
            }
            assert(is_best(registry@, number, constraint@, vi));
            let p = &entries[i];
            return Ok(
                Package {
                    home: p.home.clone(),
                    version_constraint: constraint.to_owned(),
                    path: p.path.clone(),
                    info: p.info.duplicate(),
                },
            );
        }
        proof {
            if entries@[i as int]@.info.package_number == number && is_best(registry@, number, constraint@, vi) {
                assert(registry@.contains_key((number, vi)));
                let j = choose|j: int|
                    0 <= j < entries@.len() && (#[trigger] entries@[j]@).info.package_number == number
                        && is_versioning(entries@[j]@.info.version) && requirement_admits(
                        constraint@,
                        entries@[j]@.info.version,
                    ) && versioning_below(vi, entries@[j]@.info.version);
                assert(registry@.contains_key(key_of(entries@[j]@)));
                assert(is_candidate(registry@, number, constraint@, entries@[j]@.info.version));
            }
        }
        i = i + 1;
    }
    proof {
        if exists|v: Seq<char>| is_best(registry@, number, constraint@, v) {
            let v = choose|v: Seq<char>| is_best(registry@, number, constraint@, v);
            let k = choose|k: int| 0 <= k < entries@.len() && key_of(#[trigger] entries@[k]@) == (number, v);
            assert(entries@[k]@.info.version == v);
        }
    }
    Err(
        PackageError::NoMatchingVersion {
            number,
            constraint: constraint.to_owned(),
            home: home.to_owned(),
        },
    )
}

/// Under a wider constraint the resolved version is never below the one resolved under
/// a narrower constraint: where every version meeting `c1` meets `c2`, and `v1` and `v2`
/// are what resolution gives under `c1` and `c2`, `v2` does not order below `v1`.
pub proof fn law_resolve_monotone(
    reg: Map<(i64, Seq<char>), PackageModel>,
    number: i64,
    c1: Seq<char>,
    c2: Seq<char>,
    v1: Seq<char>,
    v2: Seq<char>,
)
    requires
        constraint_within(c1, c2),
        is_best(reg, number, c1, v1),
        is_best(reg, number, c2, v2),
    ensures
        !versioning_below(v2, v1),
{
    assert(requirement_admits(c2, v1));
    assert(is_candidate(reg, number, c2, v1));
}


/// Settings for locating one installed package: the installation root (or a
/// discovered default for it), the package number, and a version constraint
/// (by default any version).
#[derive(Debug, Clone)]
pub struct PackageBuilder {
    /// The installation root; where unset, `default_root` is used
    pub home: Option<String>,
    /// The installation root found by the caller's own lookup, if any
    pub default_root: Option<String>,
    /// The number of the package to locate
    pub package_number: Option<i64>,
    /// The version constraint; where unset, any version
    pub version_constraint: Option<String>,
}

/// The constraint a builder resolves with.
pub open spec fn constraint_of(b: PackageBuilder) -> Seq<char> {
    match b.version_constraint {
        Some(c) => c@,
        None => ANY_VERSION@,
    }
}

impl PackageBuilder {
    /// A builder with nothing set.
    pub fn new() -> (r: PackageBuilder)
        ensures
            r.home is None,
            r.default_root is None,
            r.package_number is None,
            r.version_constraint is None,
    {
        PackageBuilder { home: None, default_root: None, package_number: None, version_constraint: None }
    }

    /// Sets the installation root.
    pub fn home(self, home: String) -> (r: PackageBuilder)
        ensures
            r == (PackageBuilder { home: Some(home), ..self }),
    {
        PackageBuilder { home: Some(home), ..self }
    }

    /// Sets the root to use where no installation root is set.
    pub fn default_root(self, root: String) -> (r: PackageBuilder)
        ensures
            r == (PackageBuilder { default_root: Some(root), ..self }),
    {
        PackageBuilder { default_root: Some(root), ..self }
    }

    /// Sets the number of the package to locate.
    pub fn package_number(self, number: i64) -> (r: PackageBuilder)
        ensures
            r == (PackageBuilder { package_number: Some(number), ..self }),
    {
        PackageBuilder { package_number: Some(number), ..self }
    }

    /// Sets the version constraint.
    pub fn version(self, constraint: String) -> (r: PackageBuilder)
        ensures
            r == (PackageBuilder { version_constraint: Some(constraint), ..self }),
    {
        PackageBuilder { version_constraint: Some(constraint), ..self }
    }

    /// The default installation root; an error where none was found.
    pub fn default_home(&self) -> (r: Result<String, PackageError>)
        ensures
            self.default_root is None ==> r == Err::<String, PackageError>(PackageError::NoHome),
            self.default_root matches Some(d) ==> r is Ok && r->Ok_0@ == d@,
    {
        match &self.default_root {
            Some(d) => Ok(d.clone()),
            None => Err(PackageError::NoHome),
        }
    }

    /// The installation root to scan: the one set, else the default.
    pub fn root(&self) -> (r: Result<String, PackageError>)
        ensures
            self.home matches Some(h) ==> r is Ok && r->Ok_0@ == h@,
            self.home is None && self.default_root is None ==> r == Err::<String, PackageError>(
                PackageError::NoHome,
            ),
            self.home is None ==> (self.default_root matches Some(d) ==> r is Ok && r->Ok_0@ == d@),
    {
        match &self.home {
            Some(h) => Ok(h.clone()),
            None => self.default_home(),
        }
    }

    /// Resolves the set package number and constraint in the registry read from `home`.
    pub fn resolve_in(&self, registry: &PackageRegistry, home: &str) -> (r: Result<Package, PackageError>)
        requires
            registry.wf(),
        ensures
            self.package_number is None ==> r == Err::<Package, PackageError>(
                PackageError::NoPackageNumber,
            ),
            self.package_number matches Some(n) ==> resolution(
                registry@,
                home@,
                n,
                constraint_of(*self),
                r,
            ),
    {
        match self.package_number {
            None => Err(PackageError::NoPackageNumber),
            Some(n) => match &self.version_constraint {
                Some(c) => resolve(registry, home, n, c.as_str()),
                None => resolve(registry, home, n, ANY_VERSION),
            },
        }
    }
}

} // verus!
