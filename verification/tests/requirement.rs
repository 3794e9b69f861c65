use kaisha_server::paths::{archived_employee_root, handover_dir, opinion_file};
use kaisha_server::requirement::{
    check_lowered_requirement_id, derive_id_from_lowered,
    abandoned_detail, archived_summary, touch_requirement, derive_requirement_id, frame_requirement_md, normalize_requirement_id, phase_from_str, phase_in_progress,
    phase_storable, split_frontmatter, validate_requirement_meta, RequirementError, RequirementMeta,
    RequirementPhase,
};
use kaisha_server::requirement_development::{
    claim_dev_task, dev_task_action, ensure_development_started, DevError, DevTaskStatus,
};

fn yaml_of(meta: &RequirementMeta) -> String {
    format!(
        "id: {}\ntitle: {}\nphase: {}\ncreated_at_ms: {}\nupdated_at_ms: {}\n",
        meta.id,
        meta.title,
        meta.phase.as_str(),
        meta.created_at_ms,
        meta.updated_at_ms
    )
}

fn meta_of(yaml: &str) -> RequirementMeta {
    let v: serde_yaml::Value = serde_yaml::from_str(yaml).expect("yaml");
    let text = |k: &str| v.get(k).and_then(|x| x.as_str()).unwrap_or_default().to_string();
    let num = |k: &str| v.get(k).and_then(|x| x.as_u64()).unwrap_or_default();
    RequirementMeta {
        id: text("id"),
        title: text("title"),
        phase: phase_from_str(&text("phase")).expect("phase"),
        created_at_ms: num("created_at_ms"),
        updated_at_ms: num("updated_at_ms"),
    }
}

#[test]
fn round_trip_requirement_md() {
    let meta = RequirementMeta {
        id: "auth-login".to_string(),
        title: "Auth login".to_string(),
        phase: RequirementPhase::Development,
        created_at_ms: 1,
        updated_at_ms: 2,
    };
    let content = "# Goals\n\nSupport SSO.";
    let md = frame_requirement_md(&yaml_of(&meta), content);
    let (yaml, body) = split_frontmatter(&md).expect("parse");
    let parsed = validate_requirement_meta(meta_of(&yaml)).expect("phase");
    assert_eq!(parsed.id, "auth-login");
    assert_eq!(parsed.phase, RequirementPhase::Development);
    assert_eq!(body, content);
}

#[test]
fn all_phases_are_valid_strings() {
    for phase_str in ["collection", "development", "testing", "release"] {
        let parsed = phase_from_str(phase_str);
        assert!(parsed.is_some());
        assert!(phase_storable(parsed.unwrap()));
    }
}

#[test]
fn normalize_requirement_id_trims_and_lowercases() {
    assert_eq!(normalize_requirement_id("  SSO-Login  ").unwrap(), "sso-login");
}

#[test]
fn normalize_requirement_id_rejects_empty() {
    assert_eq!(normalize_requirement_id("  ").unwrap_err().key(), "requirement_id_empty");
}

#[test]
fn normalize_requirement_id_rejects_invalid_chars() {
    assert!(normalize_requirement_id("bad/id").is_err());
}

#[test]
fn derive_requirement_id_from_title() {
    assert_eq!(derive_requirement_id("User Auth Flow").unwrap(), "user-auth-flow");
}

#[test]
fn phase_in_progress_excludes_release() {
    assert!(phase_in_progress(&RequirementPhase::Development));
    assert!(!phase_in_progress(&RequirementPhase::Release));
}

#[test]
fn phase_can_be_updated() {
    let mut meta = RequirementMeta {
        id: "feat-a".to_string(),
        title: "Feature".to_string(),
        phase: RequirementPhase::Collection,
        created_at_ms: 1,
        updated_at_ms: 1,
    };
    meta.phase = RequirementPhase::Development;
    assert_eq!(meta.phase, RequirementPhase::Development);
}

#[test]
fn dev_task_status_next_follows_pipeline() {
    assert_eq!(DevTaskStatus::BranchCreated.next_status(), Some(DevTaskStatus::InDevelopment));
    assert_eq!(DevTaskStatus::InDevelopment.next_status(), Some(DevTaskStatus::DevComplete));
    assert_eq!(DevTaskStatus::Merged.next_status(), None);
}

#[test]
fn dev_task_status_as_str_matches_serde_names() {
    assert_eq!(DevTaskStatus::InReview.as_str(), "in_review");
}

// ---- further cases of this library ----

#[test]
fn frontmatter_missing_is_refused() {
    assert_eq!(split_frontmatter("no front matter").unwrap_err(), RequirementError::FrontmatterMissing);
    assert_eq!(split_frontmatter("---\nid: x\n").unwrap_err(), RequirementError::FrontmatterMissing);
}

#[test]
fn frontmatter_round_trip_keeps_trimmed_yaml_and_body() {
    let md = frame_requirement_md("  id: a\n", "Body\n");
    let (yaml, body) = split_frontmatter(&md).unwrap();
    assert_eq!(yaml, "id: a");
    assert_eq!(body, "Body\n");
}

#[test]
fn review_phase_cannot_be_stored() {
    let meta = RequirementMeta {
        id: "r".into(),
        title: "R".into(),
        phase: RequirementPhase::Review,
        created_at_ms: 1,
        updated_at_ms: 1,
    };
    assert_eq!(validate_requirement_meta(meta).unwrap_err(), RequirementError::PhaseInvalid);
}

#[test]
fn derive_requirement_id_rejects_symbols_only() {
    assert_eq!(derive_requirement_id("!!!").unwrap_err(), RequirementError::IdInvalid);
    assert_eq!(derive_requirement_id("  Écoles  Ünd--X ").unwrap(), "coles-nd-x");
}

#[test]
fn claim_dev_task_assigns_employee_and_starts_development() {
    assert_eq!(claim_dev_task(true, DevTaskStatus::BranchCreated, None, "alice"), Ok(Some("alice".to_string())));
    assert_eq!(
        claim_dev_task(true, DevTaskStatus::BranchCreated, Some("bob".into()), "alice"),
        Ok(Some("bob".to_string()))
    );
    assert_eq!(
        claim_dev_task(true, DevTaskStatus::BranchCreated, Some("  ".into()), "alice"),
        Ok(Some("alice".to_string()))
    );
}

#[test]
fn claim_dev_task_rejects_non_pending_task() {
    assert_eq!(claim_dev_task(true, DevTaskStatus::InDevelopment, None, "alice"), Err(DevError::TaskActionInvalid));
    assert_eq!(claim_dev_task(false, DevTaskStatus::BranchCreated, None, "alice"), Err(DevError::TaskNotFound));
}

#[test]
fn ensure_development_started_persists_state_file() {
    let state = ensure_development_started("auth", true, None).unwrap();
    assert_eq!(state.feature_branch, "feat-auth");
    assert!(state.feature_branch_created);
    assert_eq!(state.requirement_id, "auth");
    assert!(state.current_task_id.is_none());
    assert_eq!(ensure_development_started("auth", false, None).unwrap_err(), DevError::RequirementNotFound);
}

#[test]
fn dev_task_action_follows_status() {
    assert!(dev_task_action(DevTaskStatus::Merged, "start_development").is_err());
    assert_eq!(dev_task_action(DevTaskStatus::BranchCreated, "frobnicate").unwrap_err(), DevError::TaskActionUnknown);
}

fn archived_meta(id: &str) -> RequirementMeta {
    RequirementMeta {
        id: id.into(),
        title: "Title".into(),
        phase: RequirementPhase::Review,
        created_at_ms: 1,
        updated_at_ms: 2,
    }
}

#[test]
fn abandoned_requirement_is_listed_from_the_archive() {
    let s = archived_summary(archived_meta("r1"), "r1");
    assert_eq!(s.dir_path, "requirements/archived/r1");
    assert_eq!(s.updated_at_ms, 2);
    let d = abandoned_detail(archived_meta("r1"), "r1", "body".into());
    assert_eq!(d.dir_path, "requirements/archived/r1");
    assert_eq!(d.content, "body");
    assert!(d.subdirs.is_empty());
    let mut m = archived_meta("r1");
    touch_requirement(&mut m, 99);
    assert_eq!(m.updated_at_ms, 99);
    assert_eq!(m.created_at_ms, 1);
}

#[test]
fn archive_and_handover_paths() {
    assert_eq!(archived_employee_root("/ws"), "/ws/shachiku/archived");
    assert_eq!(handover_dir("/ws", "e1"), "/ws/handovers/e1");
    assert_eq!(opinion_file("/ws/", "r1", "e1"), "/ws/requirements/r1/review/opinions/e1.md");
}

#[test]
fn starting_development_normalizes_the_id() {
    let st = ensure_development_started("  Auth ", true, None).unwrap();
    assert_eq!(st.feature_branch, "feat-auth");
    assert_eq!(st.requirement_id, "auth");
    assert_eq!(
        ensure_development_started("bad/id", true, None).unwrap_err(),
        DevError::RequirementId(RequirementError::IdInvalid)
    );
    assert_eq!(
        ensure_development_started("   ", true, None).unwrap_err(),
        DevError::RequirementId(RequirementError::IdEmpty)
    );
    assert_eq!(ensure_development_started("ghost", false, None).unwrap_err(), DevError::RequirementNotFound);
}

#[test]
fn derived_ids_normalize_to_themselves() {
    for title in ["User Auth Flow", "  a__b!  ", "x1 -- Y2"] {
        let id = derive_requirement_id(title).unwrap();
        assert_eq!(normalize_requirement_id(&id).unwrap(), id);
    }
    assert_eq!(derive_requirement_id("  a__b!  ").unwrap(), "a-b");
    assert_eq!(derive_id_from_lowered("user auth flow").unwrap(), "user-auth-flow");
    assert_eq!(check_lowered_requirement_id("sso-login".into()).unwrap(), "sso-login");
    assert_eq!(check_lowered_requirement_id("bad/id".into()).unwrap_err(), RequirementError::IdInvalid);
}

#[test]
fn newest_first_keeps_the_order_of_requirements_updated_together() {
    use_newest_first();
}

fn use_newest_first() {
    let s = |id: &str, at: u64| kaisha_server::requirement::RequirementSummary {
        id: id.into(),
        title: id.into(),
        phase: RequirementPhase::Collection,
        created_at_ms: 0,
        updated_at_ms: at,
        dir_path: format!("requirements/{id}"),
    };
    let out = kaisha_server::requirement::sort_newest_first(&vec![s("a", 1), s("b", 5), s("c", 1), s("d", 5)]);
    let ids: Vec<&str> = out.iter().map(|r| r.id.as_str()).collect();
    assert_eq!(ids, vec!["b", "d", "a", "c"]);
}
