//! What the browser page says.

use devcluster::web::{
    api_base, enrolment_label, enrolment_summary, idle_label, session_url, state_label,
    Authorization, Connection, EnrolmentState, SessionState, SlotState, DEFAULT_API_BASE,
    UNREACHABLE_MESSAGE,
};

/// An unreachable control plane is not an empty list.
#[test]
fn an_unreachable_control_plane_is_not_an_empty_list_cc_05() {
    let empty: Connection<Vec<u8>> = Connection::Connected(Vec::new());
    let down: Connection<Vec<u8>> = Connection::Unreachable {
        detail: "NetworkError".to_string(),
    };

    assert!(empty.is_connected());
    assert!(!down.is_connected());
    assert_ne!(
        empty, down,
        "an empty list and an unreachable control plane are different facts"
    );

    let message = UNREACHABLE_MESSAGE;
    assert!(message.contains("tailnet"));
    assert!(message.contains("rebooting"));
    assert!(message.contains("ssh dc-"));
}

/// A held dirty archive is called out.
#[test]
fn a_held_dirty_archive_is_labelled_distinctly_cc_05() {
    let held = state_label(SessionState::Archived, true);
    let ordinary = state_label(SessionState::Archived, false);
    assert_ne!(held, ordinary);
    assert!(held.contains("acknowledgement"), "{held}");
}

/// The URL a session is addressed by carries no host.
#[test]
fn a_session_url_carries_no_host_cw_04() {
    let template = "https://vscode.dev/tunnel/{name}/{folder}";
    let url = session_url(template, "dc-", "abc123", "workspace");
    assert_eq!(url, "https://vscode.dev/tunnel/dc-abc123/workspace");
    assert!(url.contains("dc-abc123"));
    for node in ["n1", "n2", "n3"] {
        assert!(!url.contains(node), "{node} leaked into the session URL");
    }
}

/// The page never shows a code it does not have.
#[test]
fn authorization_states_are_distinct_cc_08() {
    let pending = Authorization::Pending {
        user_code: "ABCD-1234".to_string(),
        verification_uri: "https://github.com/login/device".to_string(),
    };
    assert_ne!(pending, Authorization::Absent);
    assert_ne!(pending, Authorization::Held);
    assert_ne!(Authorization::Absent, Authorization::Held);
}

#[test]
fn idle_age_reads_in_human_units_cc_05() {
    assert_eq!(idle_label(30), "just now");
    assert_eq!(idle_label(600), "10 min");
    assert_eq!(idle_label(7_200), "2 h");
    assert_eq!(idle_label(60 * 60 * 24 * 31), "31 days");
}

fn state(pairs: &[(&str, bool)]) -> EnrolmentState {
    EnrolmentState::of(
        pairs
            .iter()
            .map(|(id, present)| SlotState {
                id: (*id).to_string(),
                present: *present,
            })
            .collect(),
    )
}

/// An unenrolled cluster reads as not yet given, not as broken.
#[test]
fn an_unenrolled_cluster_does_not_read_as_broken_cc_09() {
    let s = state(&[("ssh_authorized_key", false), ("tailnet_auth_key", false)]);
    assert!(!s.complete);

    let summary = enrolment_summary(&s);
    assert!(summary.contains("ssh_authorized_key"), "{summary}");
    assert!(summary.contains("tailnet_auth_key"), "{summary}");
    assert!(summary.contains("no images"), "{summary}");
    for alarming in ["error", "failed", "broken", "unhealthy"] {
        assert!(
            !summary.to_lowercase().contains(alarming),
            "a cluster nobody has enrolled is not {alarming}: {summary}"
        );
    }

    assert_eq!(enrolment_label(false), "not given yet");
    assert_eq!(enrolment_label(true), "given");
}

#[test]
fn a_fully_enrolled_cluster_says_so_plainly_cc_09() {
    let s = state(&[("ssh_authorized_key", true), ("tailnet_auth_key", true)]);
    assert!(s.complete);
    let summary = enrolment_summary(&s);
    assert!(summary.contains("Every secret"), "{summary}");
    assert!(!summary.contains("waiting"), "{summary}");
}

/// The state carries presence and no value.
#[test]
fn the_state_a_browser_receives_carries_no_value_cc_09() {
    let s = state(&[("registry_pull_token", true)]);
    let EnrolmentState { secrets, complete } = s;
    let rows: Vec<serde_json::Value> = secrets
        .into_iter()
        .map(|slot| {
            let SlotState { id, present } = slot;
            let mut row = serde_json::Map::new();
            row.insert("id".to_string(), serde_json::Value::from(id));
            row.insert("present".to_string(), serde_json::Value::from(present));
            serde_json::Value::Object(row)
        })
        .collect();
    let mut document = serde_json::Map::new();
    document.insert("secrets".to_string(), serde_json::Value::Array(rows));
    document.insert("complete".to_string(), serde_json::Value::from(complete));
    let json = serde_json::to_string(&document).expect("it serialises");
    assert!(json.contains("registry_pull_token"));
    assert!(json.contains("\"present\":true"));
    assert!(!json.contains("value"), "{json}");
}

#[test]
fn units_change_at_their_edges() {
    assert_eq!(idle_label(0), "just now");
    assert_eq!(idle_label(59), "just now");
    assert_eq!(idle_label(60), "1 min");
    assert_eq!(idle_label(3_599), "59 min");
    assert_eq!(idle_label(3_600), "1 h");
}

#[test]
fn an_unset_base_is_the_default() {
    assert_eq!(api_base(None), DEFAULT_API_BASE);
    assert_eq!(api_base(Some("https://node1.ts.net")), "https://node1.ts.net");
}

#[test]
fn a_loading_page_is_not_connected() {
    let loading: Connection<u8> = Connection::Loading;
    assert!(!loading.is_connected());
}
