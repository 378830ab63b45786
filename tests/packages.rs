use simics_packages::error::PackageError;
use simics_packages::info::{parse_package_info, PackageInfo};
use simics_packages::magic::{Magic, MagicCode, UnknownMagic};
use simics_packages::number::PublicPackageNumber;
use simics_packages::registry::{Package, PackageRegistry};
use simics_packages::resolve::{resolve, PackageBuilder};

const BASE_157: &str = "name: Simics-Base\n\
description: Simics Base: core\n\
version: 6.0.157\n\
extra-version: \n\
host: linux64\n\
confidentiality: Public\n\
package-name: Simics-Base\n\
package-number: 1000\n\
build-id: 6157\n\
build-id-namespace: simics\n\
type: base\n\
package-name-full: Simics-Base-linux64\n\
files:\n    simics-6.0.157/bin/simics\n    simics-6.0.157/lib/libsimics.so\n";

fn base_text(version: &str) -> String {
    format!(
        "name: Simics-Base\nversion: {}\npackage-number: 1000\nfiles:\n    simics-{}/bin/simics\n",
        version, version
    )
}

fn registry_with(texts: &[String]) -> PackageRegistry {
    let packages: Vec<Package> = texts
        .iter()
        .enumerate()
        .map(|(i, t)| Package::from_metadata("/opt/simics".to_string(), format!("/opt/simics/p{}", i), t))
        .collect();
    PackageRegistry::from_packages(packages)
}

fn scenario_registry() -> PackageRegistry {
    registry_with(&[base_text("6.0.50"), base_text("6.0.157")])
}

#[test]
fn parses_every_known_field() {
    let info = parse_package_info(BASE_157);
    assert_eq!(info.name, "Simics-Base");
    assert_eq!(info.description, "Simics Base: core");
    assert_eq!(info.version, "6.0.157");
    assert_eq!(info.extra_version, "");
    assert_eq!(info.host, "linux64");
    assert_eq!(info.confidentiality, "Public");
    assert_eq!(info.package_name, "Simics-Base");
    assert_eq!(info.package_number, 1000);
    assert_eq!(info.build_id, 6157);
    assert_eq!(info.build_id_namespace, "simics");
    assert_eq!(info.typ, "base");
    assert_eq!(info.package_name_full, "Simics-Base-linux64");
    assert_eq!(
        info.files,
        vec!["simics-6.0.157/bin/simics".to_string(), "simics-6.0.157/lib/libsimics.so".to_string()]
    );
}

#[test]
fn parsing_twice_gives_equal_records() {
    let a = parse_package_info(BASE_157);
    let b = parse_package_info(BASE_157);
    assert_eq!(a.name, b.name);
    assert_eq!(a.description, b.description);
    assert_eq!(a.version, b.version);
    assert_eq!(a.package_number, b.package_number);
    assert_eq!(a.build_id, b.build_id);
    assert_eq!(a.files, b.files);
}

#[test]
fn invalid_package_number_is_unknown() {
    for v in ["abc", "", "12x", "-", "+", "1 000", "99999999999999999999"] {
        let info = parse_package_info(&format!("package-number: {}\n", v));
        assert_eq!(info.package_number, -1, "value {:?}", v);
    }
}

#[test]
fn valid_package_numbers() {
    assert_eq!(parse_package_info("package-number: 4094").package_number, 4094);
    assert_eq!(parse_package_info("package-number:   -5  ").package_number, -5);
    assert_eq!(parse_package_info("package-number: +7\r\n").package_number, 7);
    assert_eq!(
        parse_package_info("package-number: -9223372036854775808").package_number,
        i64::MIN
    );
    assert_eq!(
        parse_package_info("package-number: 9223372036854775808").package_number,
        -1
    );
}

#[test]
fn missing_package_number_is_unknown() {
    let info = parse_package_info("name: x\nversion: 1.0.0\n");
    assert_eq!(info.package_number, -1);
}

#[test]
fn build_id_defaults_to_zero() {
    assert_eq!(parse_package_info("build-id: oops").build_id, 0);
    assert_eq!(parse_package_info("build-id: -3").build_id, 0);
    assert_eq!(parse_package_info("build-id: +12").build_id, 12);
    assert_eq!(parse_package_info("build-id: 18446744073709551615").build_id, u64::MAX);
    assert_eq!(parse_package_info("build-id: 18446744073709551616").build_id, 0);
}

#[test]
fn files_are_trimmed_indented_lines_in_order() {
    let text = "files:\n  a/one  \nname: n\n\tb/two\n   \n c/three\r\nversion: 1\n";
    let info = parse_package_info(text);
    assert_eq!(
        info.files,
        vec!["a/one".to_string(), "b/two".to_string(), "".to_string(), "c/three".to_string()]
    );
    assert_eq!(info.name, "n");
}

#[test]
fn value_keeps_colons_after_the_first() {
    let info = parse_package_info("description: a: b :c\nname:no-space");
    assert_eq!(info.description, "a: b :c");
    assert_eq!(info.name, "no-space");
}

#[test]
fn unknown_keys_and_lines_without_colon_are_ignored() {
    let info = parse_package_info("colour: blue\njust words\nName: upper\n");
    let blank = PackageInfo::default();
    assert_eq!(info.name, blank.name);
    assert_eq!(info.package_number, -1);
    assert!(info.files.is_empty());
}

#[test]
fn empty_text_gives_blank_record() {
    let info = parse_package_info("");
    assert_eq!(info.name, "");
    assert_eq!(info.package_number, -1);
    assert_eq!(info.build_id, 0);
    assert!(info.files.is_empty());
}

#[test]
fn later_lines_override_earlier_ones() {
    let info = parse_package_info("package-number: 1\npackage-number: bad\nname: a\nname: b");
    assert_eq!(info.package_number, -1);
    assert_eq!(info.name, "b");
}

#[test]
fn package_path_joins_first_segment() {
    let info = parse_package_info(BASE_157);
    assert_eq!(info.get_package_path("/opt/simics").unwrap(), "/opt/simics/simics-6.0.157");
    assert_eq!(info.get_package_path("/opt/simics/").unwrap(), "/opt/simics/simics-6.0.157");
    assert_eq!(info.get_package_path("").unwrap(), "simics-6.0.157");
}

#[test]
fn package_path_needs_files() {
    let info = parse_package_info("name: x");
    assert_eq!(info.get_package_path("/opt"), Err(PackageError::NoFiles));
}

#[test]
fn grouping_keeps_one_entry_per_key() {
    let first = "version: 1.0.0\npackage-number: 5\nname: first".to_string();
    let second = "version: 1.0.0\npackage-number: 5\nname: second".to_string();
    let other = "version: 1.0.1\npackage-number: 5\nname: other".to_string();
    let reg = registry_with(&[first, second, other]);
    assert_eq!(reg.packages().len(), 2);
    assert_eq!(reg.get(5, "1.0.0").unwrap().info.name, "second");
    assert_eq!(reg.get(5, "1.0.1").unwrap().info.name, "other");
    assert!(reg.get(6, "1.0.0").is_none());
    assert!(reg.contains_number(5));
    assert!(!reg.contains_number(6));
}

#[test]
fn resolves_highest_version_for_any() {
    let reg = scenario_registry();
    let p = resolve(&reg, "/opt/simics", 1000, "*").unwrap();
    assert_eq!(p.info.version, "6.0.157");
    assert_eq!(p.version_constraint, "*");
    assert_eq!(p.path, "/opt/simics/p1");
    assert_eq!(p.home, "/opt/simics");
}

#[test]
fn resolves_highest_version_below_bound() {
    let reg = scenario_registry();
    let p = resolve(&reg, "/opt/simics", 1000, "<6.0.100").unwrap();
    assert_eq!(p.info.version, "6.0.50");
    assert_eq!(p.version_constraint, "<6.0.100");
}

#[test]
fn absent_package_number_is_not_found() {
    let reg = scenario_registry();
    let e = resolve(&reg, "/opt/simics", 9999, "*").unwrap_err();
    assert_eq!(e, PackageError::PackageNotFound { number: 9999, home: "/opt/simics".to_string() });
}

#[test]
fn no_version_meets_constraint() {
    let reg = scenario_registry();
    let e = resolve(&reg, "/opt/simics", 1000, ">=7.0.0").unwrap_err();
    assert_eq!(
        e,
        PackageError::NoMatchingVersion {
            number: 1000,
            constraint: ">=7.0.0".to_string(),
            home: "/opt/simics".to_string()
        }
    );
}

#[test]
fn invalid_constraint_is_reported() {
    let reg = scenario_registry();
    let e = resolve(&reg, "/opt/simics", 1000, "?6").unwrap_err();
    assert_eq!(e, PackageError::InvalidConstraint { constraint: "?6".to_string() });
}

#[test]
fn exact_constraint_selects_that_version() {
    let reg = scenario_registry();
    let p = resolve(&reg, "/opt/simics", 1000, "=6.0.50").unwrap();
    assert_eq!(p.info.version, "6.0.50");
}

#[test]
fn unparsable_versions_are_skipped() {
    let reg = registry_with(&[
        "version: \npackage-number: 3".to_string(),
        "version: 1.2.3\npackage-number: 3".to_string(),
    ]);
    let p = resolve(&reg, "/h", 3, "*").unwrap();
    assert_eq!(p.info.version, "1.2.3");
}

#[test]
fn wider_constraint_resolves_no_lower() {
    let reg = registry_with(&[base_text("6.0.50"), base_text("6.0.157"), base_text("6.0.99")]);
    let narrow = resolve(&reg, "/h", 1000, "<6.0.100").unwrap();
    let wide = resolve(&reg, "/h", 1000, "*").unwrap();
    assert_eq!(narrow.info.version, "6.0.99");
    assert_eq!(wide.info.version, "6.0.157");
}

#[test]
fn missing_number_is_grouped_under_unknown() {
    let reg = registry_with(&["name: orphan\nversion: 2.0.0\n".to_string()]);
    let p = reg.get(-1, "2.0.0").unwrap();
    assert_eq!(p.info.name, "orphan");
    assert!(reg.contains_number(-1));
    let r = resolve(&reg, "/h", -1, "*").unwrap();
    assert_eq!(r.info.version, "2.0.0");
}

#[test]
fn builder_resolves_with_defaults() {
    let reg = scenario_registry();
    let b = PackageBuilder::new().default_root("/opt/simics".to_string()).package_number(1000);
    let home = b.root().unwrap();
    assert_eq!(home, "/opt/simics");
    let p = b.resolve_in(&reg, &home).unwrap();
    assert_eq!(p.info.version, "6.0.157");
    assert_eq!(p.version_constraint, "*");
}

#[test]
fn builder_uses_set_home_and_constraint() {
    let reg = scenario_registry();
    let b = PackageBuilder::new()
        .default_root("/elsewhere".to_string())
        .home("/opt/simics".to_string())
        .package_number(1000)
        .version("<6.0.100".to_string());
    assert_eq!(b.root().unwrap(), "/opt/simics");
    assert_eq!(b.default_home().unwrap(), "/elsewhere");
    assert_eq!(b.resolve_in(&reg, "/opt/simics").unwrap().info.version, "6.0.50");
}

#[test]
fn builder_errors() {
    let reg = scenario_registry();
    let b = PackageBuilder::new();
    assert_eq!(b.root(), Err(PackageError::NoHome));
    assert_eq!(b.default_home(), Err(PackageError::NoHome));
    assert_eq!(b.resolve_in(&reg, "/h").unwrap_err(), PackageError::NoPackageNumber);
}

#[test]
fn blank_package() {
    let p = Package::blank_in_at("/h".to_string(), "/h/p".to_string());
    assert_eq!(p.home, "/h");
    assert_eq!(p.path, "/h/p");
    assert_eq!(p.version_constraint, "*");
    assert_eq!(p.info.package_number, -1);
}

#[test]
fn magic_codes() {
    assert_eq!(MagicCode::try_from(0x4242), Ok(MagicCode::Stop));
    assert_eq!(MagicCode::try_from(0x4343), Ok(MagicCode::Start));
    assert_eq!(MagicCode::try_from(7), Err(UnknownMagic { value: 7 }));
    assert_eq!(MagicCode::Start.try_into(), Ok(0x4343));
    assert_eq!(MagicCode::Stop.value(), 0x4242);
    assert_eq!(Magic::try_from(0x4343), Ok(Magic::Start((MagicCode::Start, None, None))));
    assert_eq!(Magic::try_from(0x4242), Ok(Magic::Stop((MagicCode::Stop, None))));
    assert_eq!(Magic::try_from(-1), Err(UnknownMagic { value: -1 }));
}

#[test]
fn public_package_numbers() {
    assert_eq!(PublicPackageNumber::from(1000), PublicPackageNumber::Base);
    assert_eq!(PublicPackageNumber::from(8112), PublicPackageNumber::QspCpu);
    assert_eq!(PublicPackageNumber::from(-1), PublicPackageNumber::Unknown(-1));
    assert_eq!(PublicPackageNumber::from(5), PublicPackageNumber::Unknown(5));
    assert_eq!(i64::from(PublicPackageNumber::QspX86), 2096);
    assert_eq!(i64::from(PublicPackageNumber::Unknown(42)), 42);
    for n in [4094, 8112, 8144, 7801, 1020, 6010, 8126, 2096, 1000, -1, 0, 77] {
        assert_eq!(i64::from(PublicPackageNumber::from(n)), n);
    }
}
