use gtm_hub::version::{display_version_with_commit, parse_semver, Versions};

const BUILD: &str = "0.2.5";
const GTM: &str = "0.1.0\n";

/// Checks that the channel label is appended for alpha, stable, and empty labels.
#[test]
fn test_display_version_formatting_matrix() {
    let cases: &[(&str, &str, &str)] = &[
        // (version_with_commit,    label,        expected_suffix)
        ("0.2.5 (abc1234)", " [alpha]", "0.2.5 (abc1234) [alpha]"),
        ("0.2.5 (abc1234)", " [stable]", "0.2.5 (abc1234) [stable]"),
        ("0.2.5 (abc1234)", "", "0.2.5 (abc1234)"),
        (
            "0.1.220-alpha.2 (def0)",
            " [alpha]",
            "0.1.220-alpha.2 (def0) [alpha]",
        ),
    ];
    for (vwc, label, expected) in cases {
        assert_eq!(
            display_version_with_commit(vwc, label),
            *expected,
            "display_version_with_commit({:?}, {:?})",
            vwc,
            label,
        );
    }
    let v = Versions::new(BUILD, GTM);
    assert_eq!(v.display_version(""), v.version());
    assert!(v.display_version(" [stable]").ends_with("[stable]"));
    assert_eq!(v.display_version(" [stable]"), "0.2.5 [stable]");
}

#[test]
fn full_version_falls_back_then_first_set_wins() {
    let mut v = Versions::new(BUILD, GTM);
    assert_eq!(v.full_version(), v.version());
    v.set_full_version("first (aaaaaaa)");
    assert_eq!(v.full_version(), "first (aaaaaaa)");
    v.set_full_version("second (bbbbbbb)");
    assert_eq!(v.full_version(), "first (aaaaaaa)");
}

#[test]
fn gtm_full_version_falls_back_then_first_set_wins() {
    let mut v = Versions::new(BUILD, GTM);
    assert_eq!(v.gtm_full_version(), "0.1.0");
    v.set_gtm_full_version("one");
    v.set_gtm_full_version("two");
    assert_eq!(v.gtm_full_version(), "one");
}

#[test]
fn gtm_version_is_semver_and_not_grok_build() {
    let v = Versions::new(BUILD, GTM);
    let gtm = v.gtm_version();
    assert!(parse_semver(gtm).is_ok(), "GTM_VERSION={gtm:?}");
    assert_ne!(gtm, v.version());
}

#[test]
fn product_version_text_splits_gtm_from_grok_build() {
    let mut v = Versions::new(BUILD, GTM);
    v.set_gtm_cli(true);
    v.set_gtm_full_version("0.1.0 (deadbeefcafebabe)");
    let text = v.product_version_text(" [alpha]");
    assert!(text.starts_with("gtm 0.1.0 (deadbeefcafebabe)\n"), "{text:?}");
    assert!(text.contains(&format!("Grok Build {BUILD}")), "{text:?}");
    assert!(!text.contains("[alpha]"), "{text:?}");
    assert_eq!(
        v.product_version_line(" [alpha]"),
        "0.1.0 (deadbeefcafebabe) (Grok Build 0.2.5)"
    );
    v.set_gtm_cli(false);
    let grok = v.product_version_text(" [stable]");
    assert!(grok.starts_with("grok "), "{grok:?}");
    assert!(grok.contains("[stable]"), "{grok:?}");
    assert_eq!(grok, "grok 0.2.5 [stable]\n");
    assert_eq!(v.product_version_line(" [stable]"), "0.2.5 [stable]");
}

#[test]
fn installed_version_is_the_setting_trimmed_or_the_build() {
    let v = Versions::new(BUILD, GTM);
    assert_eq!(v.installed(Some(" 9.8.7\n")), "9.8.7");
    assert_eq!(v.installed(None), "0.2.5");
    let got = v.installed_semver(Some(" 1.2.3-alpha.2+b7 ")).ok().unwrap();
    assert_eq!((got.major, got.minor, got.patch), (1, 2, 3));
    assert_eq!(got.pre, "alpha.2");
    assert_eq!(got.build, "b7");
    let err = v.installed_semver(Some("not a version")).err().unwrap();
    assert_eq!(err.text, "not a version");
    assert!(v.installed_semver(None).is_ok());
}
