//! The register of claims, and its checks.

use devcluster::model::SPEC;
use devcluster::registry::{
    class_of, Authorities, AuthorityRow, Claim, IdRow, Ids, Ledger, Level, Model, ModelError,
    SanctionedError, Tier,
};

fn s(text: &str) -> String {
    text.to_string()
}

fn id(id: &str, suite: &str, tier: Tier) -> IdRow {
    IdRow {
        id: s(id),
        statement: format!("what {id} claims"),
        suite: s(suite),
        tier,
    }
}

fn model() -> Model {
    Model {
        ledger: Ledger {
            spec: s(SPEC),
            claim: vec![
                Claim { id: s("CM-01"), level: Level::Build, authority: None },
                Claim { id: s("CM-02"), level: Level::Open, authority: None },
                Claim { id: s("CN-01"), level: Level::SomeTrue, authority: Some(s("rfc-3021")) },
            ],
        },
        ids: Ids {
            spec: s(SPEC),
            id: vec![
                id("CM-01", "model", Tier::T0),
                id("CM-02", "model", Tier::T0),
                id("CN-01", "network", Tier::T2),
                id("CH-01", "hardware", Tier::T3),
            ],
            error: vec![SanctionedError {
                name: s("ModelError"),
                sanctioned_by: s("CM-01"),
                statement: s("the model is inconsistent"),
            }],
        },
        authorities: Authorities {
            spec: s(SPEC),
            authority: vec![AuthorityRow {
                id: s("rfc-3021"),
                citation: s("Using 31-Bit Prefixes on IPv4 Point-to-Point Links"),
                checksum: s("none"),
                checksum_reason: s("a published standard"),
                realized_by: vec![s("CN-01")],
            }],
        },
    }
}

fn why(m: &Model) -> String {
    match m.check() {
        Err(ModelError::Inconsistent(why)) => why,
        other => panic!("{other:?}"),
    }
}

/// The model is self-consistent.
#[test]
fn model_is_consistent_cm_01() {
    model().check().expect("model checks");
}

/// Every registered ID is unique and well formed.
#[test]
fn the_id_register_is_well_formed_cm_02() {
    let model = model();
    model.check().expect("model checks");
    let ids = model.ids.id.len();
    println!("{ids} registered IDs, each unique and tagged");
    for (i, row) in model.ids.id.iter().enumerate() {
        assert!(class_of(&row.id).is_some());
        assert!(model.ids.id[..i].iter().all(|r| r.id != row.id));
    }
}

/// Every claim made on an authority cites one that exists.
#[test]
fn every_some_true_claim_cites_an_authority_cm_03() {
    let model = model();
    for c in &model.ledger.claim {
        if c.level == Level::SomeTrue {
            let name = c
                .authority
                .as_ref()
                .expect("a some-true claim names its authority");
            assert!(
                model.authorities.authority.iter().any(|a| &a.id == name),
                "{name}"
            );
        }
    }
}

#[test]
fn a_class_is_two_letters_before_two_digits() {
    assert_eq!(class_of("CM-01"), Some(s("CM")));
    for text in ["", "CM01", "cm-01", "CMX-01", "CM-1", "CM-001", "CM-0a", "C-01", "CM-01-02", "ÄÖ-01"] {
        assert_eq!(class_of(text), None, "{text:?}");
    }
}

#[test]
fn another_tag_is_refused() {
    let mut m = model();
    m.ids.spec = s("repo/1");
    assert_eq!(
        why(&m),
        "model/ids.toml: spec is `repo/1`, but this build understands `cluster/1` (R1)"
    );
}

#[test]
fn each_fault_of_an_id_is_named() {
    let mut m = model();
    m.ids.id.push(id("CM-01", "model", Tier::T0));
    assert_eq!(why(&m), "CM-01: registered twice");

    let mut m = model();
    m.ids.id[1].statement = s("  ");
    assert_eq!(why(&m), "CM-02: an untagged claim does not ship (R2)");

    let mut m = model();
    m.ids.id[1].suite = s("");
    assert!(why(&m).starts_with("CM-02: every ID names the Gherkin suite"));

    let mut m = model();
    m.ids.id.push(id("CMD-1", "model", Tier::T0));
    assert!(why(&m).starts_with("CMD-1: an ID is two letters, a hyphen and two digits"));

    let mut m = model();
    m.ids.id[1].suite = s("other");
    assert!(why(&m).starts_with(
        "CM-01 is in suite `model` but CM-02 --- the same class --- is in `other`."
    ));

    let mut m = model();
    m.ids.id[3].tier = Tier::T1;
    assert!(why(&m).starts_with("CH-01: a hardware claim is tier T3 but is registered at T1."));
}

#[test]
fn each_fault_of_an_error_is_named() {
    let mut m = model();
    m.ids.error[0].sanctioned_by = s("CM-99");
    assert_eq!(
        why(&m),
        "ModelError: sanctioned_by names `CM-99`, which is not a registered ID (R5)"
    );
    let mut m = model();
    m.ids.error[0].statement = s("");
    assert!(why(&m).starts_with("ModelError: a sanctioned error states the condition"));
}

#[test]
fn each_fault_of_an_authority_is_named() {
    let mut m = model();
    m.authorities.authority[0].citation = s(" ");
    assert_eq!(why(&m), "rfc-3021: an authority with no citation");
    let mut m = model();
    m.authorities.authority[0].checksum_reason = s("");
    assert!(why(&m).starts_with("rfc-3021: no checksum and no reason."));
    let mut m = model();
    m.authorities.authority[0].realized_by.push(s("CN-99"));
    assert_eq!(why(&m), "rfc-3021: realized_by names unknown ID CN-99");
    let mut m = model();
    m.ledger.claim[2].authority = None;
    assert_eq!(why(&m), "CN-01: a some-true claim must name an authority");
    let mut m = model();
    m.ledger.claim[2].authority = Some(s("rfc-1"));
    assert!(why(&m).starts_with("CN-01: cites rfc-1, which has no row"));
}

#[test]
fn a_row_is_found_by_its_id() {
    let m = model();
    assert_eq!(m.ids.get("CN-01").map(|r| r.suite.as_str()), Some("network"));
    assert!(m.ids.get("CN-02").is_none());
}

#[test]
fn an_error_says_what_it_is() {
    assert_eq!(
        ModelError::Io(s("model/ids.toml"), s("not found")).to_text(),
        "reading model/ids.toml: not found"
    );
    assert_eq!(
        ModelError::Parse(s("model/ids.toml"), s("line 1")).to_text(),
        "parsing model/ids.toml: line 1"
    );
    assert_eq!(
        ModelError::Inconsistent(s("why")).to_text(),
        "model is inconsistent: why"
    );
    assert_eq!(Tier::T2.as_str(), "T2");
}
