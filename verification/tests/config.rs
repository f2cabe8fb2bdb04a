use kconfq::config::{
    boot_config_path, choose_location, has_gzip_magic, kernel_version_from_uname, locate_config, proc_config_path,
    require_config, require_found, Config, ConfigEntry, ConfigValue,
};
use kconfq::error::{GetKernelVersionError, LocateConfigError, RequireConfigError};
use kconfq::text::{chars_of, count_and_first, trim_bounds};

#[test]
fn config_keeps_its_path() {
    let c = Config::new("/boot/config-6.1.0".to_string());
    assert_eq!(c.path(), "/boot/config-6.1.0");
}

#[test]
fn config_entry_getters() {
    let e = ConfigEntry::new("CONFIG_CC_IS_GCC".to_string(), ConfigValue::Yes);
    assert_eq!(e.name(), "CONFIG_CC_IS_GCC");
    assert_eq!(e.value(), &ConfigValue::Yes);
    let e = ConfigEntry::new(
        "CONFIG_CC_VERSION_TEXT".to_string(),
        ConfigValue::Value("gcc (GCC) 14.3.0".to_string()),
    );
    assert_eq!(e.value(), &ConfigValue::Value("gcc (GCC) 14.3.0".to_string()));
    let e = ConfigEntry::new("CONFIG_EFI_PGT_DUMP".to_string(), ConfigValue::No);
    assert_eq!(e.value(), &ConfigValue::No);
    let e = ConfigEntry::new("CONFIG_IKHEADERS".to_string(), ConfigValue::Module);
    assert_eq!(e.value(), &ConfigValue::Module);
}

#[test]
fn gzip_magic() {
    assert!(has_gzip_magic(&[0x1f, 0x8b]));
    assert!(!has_gzip_magic(&[0x1f]));
    assert!(!has_gzip_magic(&[]));
    assert!(!has_gzip_magic(&[0x8b, 0x1f]));
    assert!(!has_gzip_magic(&[0x1f, 0x8b, 0x08]));
    assert!(!has_gzip_magic(b"CO"));
}

#[test]
fn known_paths() {
    assert_eq!(boot_config_path("6.12.1-arch1-1"), "/boot/config-6.12.1-arch1-1");
    assert_eq!(boot_config_path(""), "/boot/config-");
    assert_eq!(proc_config_path(), "/proc/config.gz");
}

#[test]
fn kernel_version_from_uname_cases() {
    assert_eq!(kernel_version_from_uname(Ok(Some("6.1.0".to_string()))).unwrap(), "6.1.0");
    assert!(matches!(
        kernel_version_from_uname(Ok(None)),
        Err(GetKernelVersionError::ReleaseMissingFromUname)
    ));
    assert!(matches!(
        kernel_version_from_uname(Err(nix::errno::Errno::EFAULT)),
        Err(GetKernelVersionError::UnameError(nix::errno::Errno::EFAULT))
    ));
}

#[test]
fn require_found_cases() {
    let found = require_found(Ok(Some(Config::new("/x".to_string())))).unwrap();
    assert_eq!(found.path(), "/x");
    assert!(matches!(require_found(Ok(None)), Err(RequireConfigError::NotFound)));
    let failed = require_found(Err(LocateConfigError::FailedToGetLinuxKernelVersion(
        GetKernelVersionError::ReleaseMissingFromUname,
    )));
    assert!(matches!(
        failed,
        Err(RequireConfigError::FailedToLocate(LocateConfigError::FailedToGetLinuxKernelVersion(
            GetKernelVersionError::ReleaseMissingFromUname
        )))
    ));
}

#[test]
fn locate_prefers_existing_default_path() {
    let c = locate_config(Some("/".to_string())).unwrap().unwrap();
    assert_eq!(c.path(), "/");
    let c = require_config(Some("/".to_string())).unwrap();
    assert_eq!(c.path(), "/");
}

#[test]
fn locate_skips_missing_default_path() {
    let missing = "/nonexistent/kconfq/config".to_string();
    if let Ok(Some(c)) = locate_config(Some(missing)) {
        assert!(c.path() == "/proc/config.gz" || c.path().starts_with("/boot/config-"));
    }
}

#[test]
fn trim_bounds_cases() {
    let s = chars_of("  a b\t");
    assert_eq!(trim_bounds(&s), (2, 5));
    let s = chars_of(" \u{85} ");
    let (a, b) = trim_bounds(&s);
    assert_eq!(a, b);
    let s = chars_of("x");
    assert_eq!(trim_bounds(&s), (0, 1));
}

#[test]
fn count_and_first_cases() {
    assert_eq!(count_and_first(&chars_of("a=b=c"), '='), (2, 1));
    assert_eq!(count_and_first(&chars_of("abc"), '=').0, 0);
    assert_eq!(count_and_first(&chars_of("=x"), '='), (1, 0));
}

#[test]
fn choose_location_order() {
    let d = || Some("/etc/kconfig".to_string());
    let found = |r: Result<Option<Config>, LocateConfigError>| r.unwrap().unwrap().path().to_string();
    assert_eq!(found(choose_location(d(), true, true, None)), "/etc/kconfig");
    assert_eq!(found(choose_location(d(), false, true, None)), "/proc/config.gz");
    assert_eq!(found(choose_location(None, true, true, None)), "/proc/config.gz");
    assert_eq!(
        found(choose_location(d(), false, false, Some((Ok("6.1.0".to_string()), true)))),
        "/boot/config-6.1.0"
    );
    assert!(matches!(
        choose_location(d(), false, false, Some((Ok("6.1.0".to_string()), false))),
        Ok(None)
    ));
    assert!(matches!(choose_location(None, false, false, None), Ok(None)));
    assert!(matches!(
        choose_location(
            None,
            false,
            false,
            Some((Err(GetKernelVersionError::ReleaseMissingFromUname), false))
        ),
        Err(LocateConfigError::FailedToGetLinuxKernelVersion(
            GetKernelVersionError::ReleaseMissingFromUname
        ))
    ));
}
