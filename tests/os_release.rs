use os_info::{
    shell_escape, AtomicUpdates, Boot, Cadence, CadenceType, Composition, Features, Filesystem,
    Firmware, Identity, Kernel, LabelMap, Maintainer, MaintainerRole, Metadata, OSInfo, OsRelease,
    Platform, Resources, SecurityContact, System, Technology, Timestamp, Update, VersionInfo,
    Website, WebsiteScope,
};

fn at(seconds: i64) -> Timestamp {
    Timestamp {
        seconds,
        nanoseconds: 0,
    }
}

fn website(url: &str, display_name: &str, scope: WebsiteScope) -> Website {
    Website {
        url: url.to_string(),
        display_name: display_name.to_string(),
        scope,
    }
}

fn document(
    id: &str,
    name: &str,
    display: &str,
    short: &str,
    full: &str,
    websites: LabelMap<Website>,
    security_contact: Option<SecurityContact>,
) -> OSInfo {
    let mut maintainers = LabelMap::new();
    maintainers.insert(
        "core".to_string(),
        vec![Maintainer {
            name: "Test User".to_string(),
            role: MaintainerRole::Founder,
            email: "test@example.com".to_string(),
            start_date: None,
            end_date: None,
        }],
    );
    OSInfo {
        version: "0.1".to_string(),
        start_date: at(1672531200),
        metadata: Metadata {
            identity: Identity {
                id: id.to_string(),
                name: name.to_string(),
                display: display.to_string(),
                ..Identity::default()
            },
            maintainers,
            version: VersionInfo {
                full: full.to_string(),
                short: short.to_string(),
                build_id: "123abc".to_string(),
                released: at(1675209600),
                announcement: None,
                codename: None,
            },
        },
        system: System {
            composition: Composition {
                bases: vec!["linux".to_string()],
                technology: Technology {
                    core: vec!["moss".to_string(), "boulder".to_string(), "apparmor".to_string()],
                    optional: vec!["selinux".to_string()],
                },
            },
            features: Features {
                atomic_updates: AtomicUpdates {
                    strategy: "none".to_string(),
                    rollback_support: false,
                },
                boot: Boot {
                    bootloader: "grub".to_string(),
                    firmware: Firmware {
                        uefi: true,
                        secure_boot: false,
                        bios: true,
                    },
                },
                filesystem: Filesystem {
                    default: "ext4".to_string(),
                    supported: vec!["ext4".to_string()],
                },
            },
            kernel: Kernel {
                kernel_type: "monolithic".to_string(),
                name: "linux".to_string(),
            },
            platform: Platform {
                architecture: "x86_64".to_string(),
                variant: "generic".to_string(),
            },
            update: Update {
                strategy: "none".to_string(),
                cadence: Cadence {
                    cadence_type: CadenceType::Fixed,
                    sync_interval: None,
                    sync_day: None,
                    release_schedule: Some("6 months".to_string()),
                    support_timeline: None,
                },
                approach: "package manager".to_string(),
            },
        },
        resources: Resources {
            websites,
            social: LabelMap::new(),
            funding: LabelMap::new(),
        },
        security_contact,
    }
}

fn test_document(websites: LabelMap<Website>, security_contact: Option<SecurityContact>) -> OSInfo {
    document("testos", "Test OS", "Test OS 1.0", "1.0", "1.0.0", websites, security_contact)
}

#[test]
fn test_os_release_conversion() {
    let mut info = document(
        "aerynos",
        "AerynOS",
        "AerynOS 0.25.1",
        "0.25.1",
        "0.25.1",
        LabelMap::new(),
        None,
    );
    info.metadata.identity.id_like = Some("linux".to_string());
    let release = OsRelease::from(&info);

    assert_eq!(release.name, "AerynOS");
    assert_eq!(release.id, "aerynos");
    assert_eq!(release.version_id, "0.25.1");
    assert_eq!(release.pretty_name, "AerynOS 0.25.1");
    assert_eq!(release.id_like, Some("linux".to_string()));
}

#[test]
fn test_os_release_format() {
    let release = OsRelease::new(
        "Test OS".to_string(),
        "testos".to_string(),
        "1.0".to_string(),
        "1.0.0".to_string(),
        "Test OS 1.0".to_string(),
    );

    let output = release.to_string();
    assert!(output.contains("NAME=\"Test OS\"\n"));
    assert!(output.contains("ID=\"testos\"\n"));
    assert!(output.contains("VERSION_ID=\"1.0\"\n"));
}

#[test]
fn test_shell_escape() {
    assert_eq!(shell_escape("simple"), "\"simple\"");
    assert_eq!(shell_escape("with \"quotes\""), "\"with \\\"quotes\\\"\"");
}

#[test]
fn test_extra_fields() {
    let mut release = OsRelease::new(
        "Test".to_string(),
        "test".to_string(),
        "1".to_string(),
        "1.0".to_string(),
        "Test 1.0".to_string(),
    );
    release
        .extra_fields
        .insert("CUSTOM_FIELD".to_string(), "value".to_string());

    let output = release.to_string();
    assert!(output.contains("CUSTOM_FIELD=\"value\"\n"));
}

#[test]
fn test_security_contact_and_policy_links() {
    let mut websites = LabelMap::new();
    websites.insert(
        "home".to_string(),
        website("https://example.com", "Test OS", WebsiteScope::Home),
    );
    websites.insert(
        "privacy".to_string(),
        website("https://example.com/privacy", "Privacy Policy", WebsiteScope::PrivacyPolicy),
    );
    websites.insert(
        "tos".to_string(),
        website("https://example.com/terms", "Terms of Service", WebsiteScope::TermsOfService),
    );
    websites.insert(
        "security".to_string(),
        website("https://example.com/security", "Security Policy", WebsiteScope::SecurityPolicy),
    );
    let contact = SecurityContact {
        email: Some("security@example.com".to_string()),
        pgp_key: Some(
            "-----BEGIN PGP PUBLIC KEY BLOCK-----\nSample Key\n-----END PGP PUBLIC KEY BLOCK-----"
                .to_string(),
        ),
        disclosure_policy: Some("Responsible disclosure within 90 days".to_string()),
    };
    let os_info = document("test-os", "Test OS", "Test OS", "1.0", "1.0.0", websites, Some(contact));

    // Check security contact
    assert_eq!(
        os_info.security_contact.as_ref().unwrap().email,
        Some("security@example.com".to_string())
    );

    // Check policy links in websites
    let privacy_site = os_info.resources.websites.get("privacy").unwrap();
    assert_eq!(privacy_site.scope, WebsiteScope::PrivacyPolicy);
    assert_eq!(privacy_site.url, "https://example.com/privacy");

    let tos_site = os_info.resources.websites.get("tos").unwrap();
    assert_eq!(tos_site.scope, WebsiteScope::TermsOfService);

    let security_site = os_info.resources.websites.get("security").unwrap();
    assert_eq!(security_site.scope, WebsiteScope::SecurityPolicy);

    // Check technologies in composition
    assert!(os_info
        .system
        .composition
        .technology
        .core
        .contains(&"apparmor".to_string()));
    assert!(os_info
        .system
        .composition
        .technology
        .optional
        .contains(&"selinux".to_string()));

    // Check conversion to OsRelease
    let release = OsRelease::from(&os_info);
    assert!(release.extra_fields.contains_key("PRIVACY_POLICY_URL"));
    assert_eq!(
        release.extra_fields.get("PRIVACY_POLICY_URL").unwrap(),
        "https://example.com/privacy"
    );
    assert!(release.extra_fields.contains_key("TERMS_OF_SERVICE_URL"));
    assert!(release.extra_fields.contains_key("SECURITY_POLICY_URL"));
    assert!(release.extra_fields.contains_key("SECURITY_CONTACT"));
    assert_eq!(
        release.extra_fields.get("SECURITY_CONTACT").unwrap(),
        "security@example.com"
    );
}

#[test]
fn scenario_no_websites_renders_required_fields_only() {
    let release = OsRelease::from(&test_document(LabelMap::new(), None));
    assert_eq!(
        release.to_string(),
        "NAME=\"Test OS\"\nID=\"testos\"\nVERSION_ID=\"1.0\"\nVERSION=\"1.0.0\"\nPRETTY_NAME=\"Test OS 1.0\"\n"
    );
}

#[test]
fn scenario_policy_links_sorted_after_named_fields() {
    let mut websites = LabelMap::new();
    websites.insert(
        "tos".to_string(),
        website("https://x/tos", "Terms", WebsiteScope::TermsOfService),
    );
    websites.insert(
        "privacy".to_string(),
        website("https://x/privacy", "Privacy", WebsiteScope::PrivacyPolicy),
    );
    let release = OsRelease::from(&test_document(websites, None));
    assert_eq!(release.extra_fields.get("PRIVACY_POLICY_URL").unwrap(), "https://x/privacy");
    assert_eq!(release.extra_fields.get("TERMS_OF_SERVICE_URL").unwrap(), "https://x/tos");
    assert_eq!(release.extra_fields.len(), 2);
    assert_eq!(
        release.to_string(),
        "NAME=\"Test OS\"\nID=\"testos\"\nVERSION_ID=\"1.0\"\nVERSION=\"1.0.0\"\nPRETTY_NAME=\"Test OS 1.0\"\n\
         PRIVACY_POLICY_URL=\"https://x/privacy\"\nTERMS_OF_SERVICE_URL=\"https://x/tos\"\n"
    );
}

#[test]
fn preferred_label_wins_over_scope() {
    let mut websites = LabelMap::new();
    websites.insert(
        "homepage".to_string(),
        website("https://home.example", "Home", WebsiteScope::Developer),
    );
    websites.insert(
        "about".to_string(),
        website("https://public.example", "Public", WebsiteScope::Public),
    );
    let release = OsRelease::from(&test_document(websites, None));
    assert_eq!(release.home_url, Some("https://home.example".to_string()));
}

#[test]
fn scope_fallback_without_preferred_label() {
    let mut websites = LabelMap::new();
    websites.insert(
        "userdocs".to_string(),
        website("https://docs.example/user", "User docs", WebsiteScope::EndUserDocs),
    );
    let release = OsRelease::from(&test_document(websites, None));
    assert_eq!(release.support_url, Some("https://docs.example/user".to_string()));
    assert_eq!(release.documentation_url, Some("https://docs.example/user".to_string()));
    assert_eq!(release.home_url, None);
    assert_eq!(release.bug_report_url, None);
}

#[test]
fn scope_fallback_takes_smallest_label() {
    let mut websites = LabelMap::new();
    websites.insert(
        "zeta".to_string(),
        website("https://z.example", "Z", WebsiteScope::DeveloperDocs),
    );
    websites.insert(
        "alpha".to_string(),
        website("https://a.example", "A", WebsiteScope::DeveloperDocs),
    );
    let release = OsRelease::from(&test_document(websites, None));
    assert_eq!(release.bug_report_url, Some("https://a.example".to_string()));
}

#[test]
fn every_url_field_from_its_label() {
    let mut websites = LabelMap::new();
    websites.insert("homepage".to_string(), website("https://h", "H", WebsiteScope::Home));
    websites.insert("support".to_string(), website("https://s", "S", WebsiteScope::Support));
    websites.insert("bugs".to_string(), website("https://b", "B", WebsiteScope::BugTracker));
    websites.insert(
        "documentation".to_string(),
        website("https://d", "D", WebsiteScope::Documentation),
    );
    let mut info = test_document(websites, None);
    info.metadata.identity.id_like = Some("linux".to_string());
    let release = OsRelease::from(&info);
    assert_eq!(
        release.to_string(),
        "NAME=\"Test OS\"\nID=\"testos\"\nVERSION_ID=\"1.0\"\nVERSION=\"1.0.0\"\nPRETTY_NAME=\"Test OS 1.0\"\n\
         ID_LIKE=\"linux\"\nHOME_URL=\"https://h\"\nDOCUMENTATION_URL=\"https://d\"\n\
         SUPPORT_URL=\"https://s\"\nBUG_REPORT_URL=\"https://b\"\n"
    );
}

#[test]
fn policy_scope_last_label_wins() {
    let mut websites = LabelMap::new();
    websites.insert(
        "privacy-a".to_string(),
        website("https://a/privacy", "A", WebsiteScope::PrivacyPolicy),
    );
    websites.insert(
        "privacy-b".to_string(),
        website("https://b/privacy", "B", WebsiteScope::PrivacyPolicy),
    );
    let release = OsRelease::from(&test_document(websites, None));
    assert_eq!(release.extra_fields.get("PRIVACY_POLICY_URL").unwrap(), "https://b/privacy");
}

#[test]
fn quoted_display_name_is_escaped() {
    let release = OsRelease::new(
        "Test".to_string(),
        "test".to_string(),
        "1".to_string(),
        "1.0".to_string(),
        "Test \"Quoted\"".to_string(),
    );
    assert!(release.to_string().contains("PRETTY_NAME=\"Test \\\"Quoted\\\"\"\n"));
    assert_eq!(shell_escape("Test \"Quoted\""), "\"Test \\\"Quoted\\\"\"");
}

#[test]
fn escape_leaves_other_characters() {
    assert_eq!(shell_escape(""), "\"\"");
    assert_eq!(shell_escape("a\\b\nc"), "\"a\\b\nc\"");
    assert_eq!(shell_escape("\""), "\"\\\"\"");
    assert_eq!(shell_escape("ünï \"cödé\""), "\"ünï \\\"cödé\\\"\"");
}

#[test]
fn extra_fields_render_sorted_whatever_insertion_order() {
    let base = OsRelease::new(
        "T".to_string(),
        "t".to_string(),
        "1".to_string(),
        "1".to_string(),
        "T 1".to_string(),
    );
    let mut first = base.clone();
    first.extra_fields.insert("ZED".to_string(), "z".to_string());
    first.extra_fields.insert("ALPHA".to_string(), "a".to_string());
    first.extra_fields.insert("MID".to_string(), "m".to_string());
    let mut second = base.clone();
    second.extra_fields.insert("MID".to_string(), "m".to_string());
    second.extra_fields.insert("ALPHA".to_string(), "a".to_string());
    second.extra_fields.insert("ZED".to_string(), "z".to_string());
    assert_eq!(first.to_string(), second.to_string());
    assert!(first
        .to_string()
        .ends_with("ALPHA=\"a\"\nMID=\"m\"\nZED=\"z\"\n"));
    assert_eq!(first, second);
}

#[test]
fn security_contact_without_email_emits_nothing() {
    let empty = SecurityContact {
        email: Some(String::new()),
        ..SecurityContact::default()
    };
    let release = OsRelease::from(&test_document(LabelMap::new(), Some(empty)));
    assert!(!release.extra_fields.contains_key("SECURITY_CONTACT"));

    let absent = SecurityContact {
        email: None,
        pgp_key: Some("key".to_string()),
        disclosure_policy: Some("policy".to_string()),
    };
    let release = OsRelease::from(&test_document(LabelMap::new(), Some(absent)));
    assert!(!release.extra_fields.contains_key("SECURITY_CONTACT"));
    assert!(release.extra_fields.is_empty());

    let release = OsRelease::from(&test_document(LabelMap::new(), None));
    assert!(!release.to_string().contains("SECURITY_CONTACT"));
}

#[test]
fn security_contact_email_is_projected_alone() {
    let contact = SecurityContact {
        email: Some("sec@example.org".to_string()),
        pgp_key: Some("key".to_string()),
        disclosure_policy: Some("policy".to_string()),
    };
    let release = OsRelease::from(&test_document(LabelMap::new(), Some(contact)));
    assert_eq!(release.extra_fields.len(), 1);
    assert_eq!(release.extra_fields.get("SECURITY_CONTACT").unwrap(), "sec@example.org");
}
