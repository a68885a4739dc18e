use knowloop::blueprint::queries::{update_result, UpdateError};
use knowloop::blueprint::models::{
    BlueprintCategory, BlueprintNode, BlueprintRelationType, BlueprintScope, BlueprintStatus,
    CreateBlueprintRequest, ListBlueprintsQuery, UpdateBlueprintRequest,
};
use knowloop::blueprint::queries::{
    add_relation_query, blueprint_from_record, create_blueprint_query, list_blueprints_query,
    remove_relation_query, update_blueprint_query, BlueprintRecord, ParamValue, RecordError,
};

fn names(q: &knowloop::blueprint::queries::CypherQuery) -> Vec<String> {
    q.params.iter().map(|p| p.name.clone()).collect()
}

#[test]
fn update_sets_only_given_fields() {
    let mut req = UpdateBlueprintRequest::default();
    req.name = Some("New".to_string());
    req.status = Some(BlueprintStatus::Archived);
    let q = update_blueprint_query("id-1", &req, "2024-01-01T00:00:00+00:00");
    assert_eq!(
        q.text,
        "MATCH (b:Blueprint {id: $id}) SET b.updated_at = $updated_at, b.name = $name, b.status = $status RETURN b"
    );
    assert_eq!(names(&q), vec!["id", "updated_at", "name", "status"]);
    match &q.params[3].value {
        ParamValue::Text(s) => assert_eq!(s, "archived"),
        _ => panic!("status is text"),
    }
}

#[test]
fn update_with_nothing_sets_the_time() {
    let q = update_blueprint_query("x", &UpdateBlueprintRequest::default(), "t");
    assert_eq!(q.text, "MATCH (b:Blueprint {id: $id}) SET b.updated_at = $updated_at RETURN b");
    assert_eq!(names(&q), vec!["id", "updated_at"]);
}

#[test]
fn list_without_filters_has_no_where() {
    let mut query = ListBlueprintsQuery::default();
    query.limit = 50;
    let q = list_blueprints_query(&query);
    assert!(q.text.starts_with("MATCH (b:Blueprint)\n            \n            RETURN b"));
    assert_eq!(names(&q), vec!["offset", "limit"]);
}

#[test]
fn list_with_filters() {
    let mut query = ListBlueprintsQuery::default();
    query.scope = Some(BlueprintScope::Feature);
    query.search = Some("auth".to_string());
    query.limit = 10;
    query.offset = 20;
    let q = list_blueprints_query(&query);
    assert!(q.text.contains(
        "WHERE b.scope = $scope AND (toLower(b.name) CONTAINS toLower($search) OR toLower(b.description) CONTAINS toLower($search))"
    ));
    assert_eq!(names(&q), vec!["scope", "search", "offset", "limit"]);
    match &q.params[3].value {
        ParamValue::Int(n) => assert_eq!(*n, 10),
        _ => panic!("limit is an integer"),
    }
}

#[test]
fn create_fills_defaults() {
    let req = CreateBlueprintRequest {
        slug: "s".to_string(),
        name: "N".to_string(),
        description: None,
        scope: None,
        category: Some(BlueprintCategory::Testing),
        difficulty: None,
        estimated_time: None,
        stack: None,
        tier1: None,
        tier2: None,
        tier3_content: None,
        source_file: None,
        content_hash: None,
        tags: Some(vec!["t".to_string()]),
    };
    let q = create_blueprint_query(&req, 0x0123456789abcdef0123456789abcdef, "now");
    assert!(q.text.contains("CREATE (b:Blueprint {"));
    assert_eq!(q.params.len(), 18);
    match &q.params[0].value {
        ParamValue::Text(s) => assert_eq!(s, "01234567-89ab-cdef-0123-456789abcdef"),
        _ => panic!(),
    }
    match &q.params[4].value {
        ParamValue::Text(s) => assert_eq!(s, "pattern"),
        _ => panic!(),
    }
    match &q.params[5].value {
        ParamValue::Text(s) => assert_eq!(s, "testing"),
        _ => panic!(),
    }
    match &q.params[14].value {
        ParamValue::Text(s) => assert_eq!(s, "active"),
        _ => panic!(),
    }
}

#[test]
fn relation_queries() {
    let q = add_relation_query("a", "b", BlueprintRelationType::DependsOn, "now");
    assert!(q.text.contains("MERGE (a)-[r:DEPENDS_ON]->(b)"));
    let q = remove_relation_query("a", "b", BlueprintRelationType::PairsWith);
    assert!(q.text.contains("-[r:PAIRS_WITH]->"));
    assert_eq!(names(&q), vec!["from_slug", "to_slug"]);
}

fn record() -> BlueprintRecord {
    BlueprintRecord {
        id: Some("01234567-89ab-cdef-0123-456789abcdef".to_string()),
        slug: Some("s".to_string()),
        name: Some("N".to_string()),
        description: None,
        scope: Some("FEATURE".to_string()),
        category: Some("ci-cd".to_string()),
        difficulty: Some("bogus".to_string()),
        estimated_time: None,
        stack: Some(vec!["rust".to_string()]),
        tier1: None,
        tier2: None,
        tier3_content: None,
        source_file: None,
        content_hash: None,
        status: None,
        version: None,
        tags: None,
        usage_count: Some(3),
        created_at: Some("2024-01-02T03:04:05Z".to_string()),
        updated_at: Some("not a date".to_string()),
    }
}

#[test]
fn node_properties_become_a_blueprint() {
    let b = blueprint_from_record(&record()).unwrap();
    assert_eq!(b.id, 0x0123456789abcdef0123456789abcdef);
    assert_eq!(b.scope, BlueprintScope::Feature);
    assert_eq!(b.category, BlueprintCategory::CiCd);
    assert_eq!(b.difficulty, knowloop::blueprint::models::BlueprintDifficulty::Intermediate);
    assert_eq!(b.status, BlueprintStatus::Draft);
    assert_eq!(b.version, 1);
    assert_eq!(b.usage_count, 3);
    assert_eq!(b.created_at.secs, 1704164645);
    assert_eq!(b.description, "");
}

#[test]
fn node_without_id_or_name_is_refused() {
    let mut r = record();
    r.id = None;
    assert_eq!(blueprint_from_record(&r).unwrap_err(), RecordError::MissingId);
    let mut r = record();
    r.id = Some("nope".to_string());
    assert_eq!(blueprint_from_record(&r).unwrap_err(), RecordError::InvalidId);
    let mut r = record();
    r.name = None;
    assert_eq!(blueprint_from_record(&r).unwrap_err(), RecordError::MissingName);
}

#[test]
fn responses_by_tier() {
    let mut b = BlueprintNode::new("s".to_string(), "N".to_string());
    b.tier1 = "one".to_string();
    b.tier2 = "two".to_string();
    b.tier3_content = "three".to_string();
    assert_eq!(b.to_response(2).content, "two");
    assert_eq!(b.to_response(3).content, "three");
    let r = b.to_response(7);
    assert_eq!(r.content, "one");
    assert_eq!(r.tier, 3);
    let r = b.to_response(-1);
    assert_eq!(r.content, "one");
    assert_eq!(r.tier, 1);
    assert_eq!(b.status, BlueprintStatus::Draft);
    assert_eq!(b.created_at, b.updated_at);
}

#[test]
fn status_transitions() {
    assert!(BlueprintStatus::Draft.can_transition_to(BlueprintStatus::Active));
    assert!(BlueprintStatus::Active.can_transition_to(BlueprintStatus::Archived));
    assert!(!BlueprintStatus::Archived.can_transition_to(BlueprintStatus::Active));
    assert!(!BlueprintStatus::Active.can_transition_to(BlueprintStatus::Draft));
    assert!(BlueprintStatus::Archived.can_transition_to(BlueprintStatus::Archived));
}

#[test]
fn enum_names_round_trip() {
    assert_eq!(BlueprintScope::from_str("Process"), Ok(BlueprintScope::Process));
    assert_eq!(BlueprintCategory::from_str("project_setup"), Ok(BlueprintCategory::ProjectSetup));
    assert_eq!(BlueprintCategory::CiCd.to_string(), "ci_cd");
    assert_eq!(
        BlueprintScope::from_str("nope"),
        Err("Unknown blueprint scope: nope".to_string())
    );
    assert_eq!(BlueprintRelationType::from_str("pairs_with"), Ok(BlueprintRelationType::PairsWith));
}

#[test]
fn node_ids_in_other_uuid_forms() {
    let mut r = record();
    r.id = Some("0123456789ABCDEF0123456789ABCDEF".to_string());
    assert_eq!(blueprint_from_record(&r).unwrap().id, 0x0123456789abcdef0123456789abcdef);
    let mut r = record();
    r.id = Some("{01234567-89ab-cdef-0123-456789abcdef}".to_string());
    assert_eq!(blueprint_from_record(&r).unwrap().id, 0x0123456789abcdef0123456789abcdef);
    let mut r = record();
    r.created_at = Some("1970-01-01T00:01:40.5Z".to_string());
    let b = blueprint_from_record(&r).unwrap();
    assert_eq!(b.created_at.secs, 100);
    assert_eq!(b.created_at.nanos, 500_000_000);
}

#[test]
fn update_of_a_missing_blueprint_is_not_found() {
    match update_result("abc-123", None) {
        Err(UpdateError::NotFound(m)) => assert_eq!(m, "Blueprint not found: abc-123"),
        other => panic!("unexpected {:?}", other.is_ok()),
    }
}

#[test]
fn update_reads_the_returned_row() {
    let rec = record();
    let direct = blueprint_from_record(&rec).unwrap();
    let node = update_result("ignored", Some(&rec)).unwrap();
    assert_eq!(node.id, direct.id);
    assert_eq!(node.name, direct.name);
    let mut bad = record();
    bad.id = None;
    assert!(matches!(update_result("x", Some(&bad)), Err(UpdateError::Record(_))));
}
