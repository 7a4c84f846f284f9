//! Filling the installer's configuration.

use devcluster::render::kickstart::KICKSTART_PLACEHOLDER;
use devcluster::tasks::installer::{accept, escape_basic, fill, output_path};

const TEMPLATE_BODY: &str = "\
[customizations.installer.kickstart]
contents = \"\"\"
@@RENDERED_KICKSTART@@
\"\"\"

[customizations.installer.modules]
disable = [\"org.fedoraproject.Anaconda.Modules.Users\"]
";

#[test]
fn an_ordinary_kickstart_round_trips() {
    let ks = "clearpart --all --initlabel\npart / --size 20480\n%post\necho hello\n%end\n";
    let filled = fill(TEMPLATE_BODY, ks).expect("it fills");
    let parsed: toml::Value = filled.parse().expect("it parses");
    assert_eq!(
        parsed["customizations"]["installer"]["kickstart"]["contents"]
            .as_str()
            .unwrap()
            .trim_end_matches('\n'),
        ks.trim_end_matches('\n')
    );
}

/// What would close the string early, or may not stand in it at all.
#[test]
fn every_character_that_would_break_the_string_survives() {
    for awkward in [
        "echo one \\\n  two\n",
        "echo \"\"\"\n",
        "echo \"\n",
        "echo \\\n",
        "sed -i 's/\"a\"/\\\"b\\\"/' /etc/thing\n",
        "echo \u{7}bell\n",
        "\techo\ttabbed\r\n",
    ] {
        let filled = fill(TEMPLATE_BODY, awkward)
            .unwrap_or_else(|e| panic!("{awkward:?} must survive: {e}"));
        let parsed: toml::Value = filled
            .parse()
            .unwrap_or_else(|e| panic!("{awkward:?} produced unparseable TOML: {e}"));
        assert_eq!(
            parsed["customizations"]["installer"]["kickstart"]["contents"]
                .as_str()
                .unwrap()
                .trim_end_matches('\n'),
            awkward.trim_end_matches('\n'),
            "{awkward:?} did not survive the round trip"
        );
    }
}

/// A template that names no placeholder is one nothing fills.
#[test]
fn a_template_naming_no_placeholder_is_refused() {
    let err = fill("contents = \"static\"\n", "anything\n").expect_err("no placeholder");
    assert!(err.contains(KICKSTART_PLACEHOLDER));
}

/// A single-quoted destination cannot hold a kickstart.
#[test]
fn a_single_quoted_destination_is_caught() {
    let bad = "[customizations.installer.kickstart]\ncontents = \"@@RENDERED_KICKSTART@@\"\n";
    let err = fill(bad, "part /\npart /var\n").expect_err("a newline in a basic string");
    assert!(
        err.contains("not TOML"),
        "it must say the configuration would not parse: {err}"
    );
}

/// A template that keeps the text elsewhere loses it.
#[test]
fn a_kickstart_read_back_elsewhere_is_refused() {
    let elsewhere = "[other]\ncontents = \"\"\"\n@@RENDERED_KICKSTART@@\n\"\"\"\n";
    assert!(fill(elsewhere, "part /\n").is_err());
}

#[test]
fn what_was_read_back_decides() {
    let filled = || "contents".to_string();
    assert_eq!(
        accept(filled(), "part /\n", &Ok(Some("part /\n".to_string()))),
        Ok(filled())
    );
    assert!(accept(filled(), "part /\n", &Ok(Some("part /var\n".to_string()))).is_err());
    assert!(accept(filled(), "part /\n", &Ok(None)).is_err());
    let err = accept(filled(), "part /\n", &Err("at line 1".to_string())).expect_err("not TOML");
    assert!(err.contains("at line 1"));
}

#[test]
fn quotes_backslashes_and_controls_are_escaped() {
    assert_eq!(escape_basic("a\"b\\c"), "a\\\"b\\\\c");
    assert_eq!(escape_basic("plain\ntext"), "plain\ntext");
    assert_eq!(escape_basic("\u{7}"), "\\u0007");
    assert_eq!(escape_basic(""), "");
}

#[test]
fn the_output_is_named_or_defaulted() {
    let args = |list: &[&str]| list.iter().map(|a| a.to_string()).collect::<Vec<String>>();
    assert_eq!(output_path(&args(&["xtask", "installer-config"]), "/repo"), "/repo/iso/config.toml");
    assert_eq!(
        output_path(&args(&["xtask", "installer-config", "--output", "/tmp/c.toml"]), "/repo"),
        "/tmp/c.toml"
    );
    assert_eq!(output_path(&args(&["xtask", "--output"]), "/repo"), "/repo/iso/config.toml");
}
