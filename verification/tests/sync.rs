use nacos_sync::config::{has_rule, lookup, mask_document, Config, IgnoreItem, Nacos};
use nacos_sync::error::{ErrorKind, SyncError};
use nacos_sync::sync::{prepare, SyncAction, SyncEvent, SyncOutcome, SyncRun, SyncStatus};
use nacos_sync::document::{DocumentNode, Mapping, Scalar};
use nacos_sync::yaml::{parse_document, render_document};

fn rule(data_id: &str, mask: &str) -> IgnoreItem {
    IgnoreItem { data_id: data_id.to_string(), fields: parse_document(mask).unwrap() }
}

fn two_rules() -> Vec<IgnoreItem> {
    vec![rule("a", "secret:\n"), rule("b", "port:\n")]
}

fn ids(names: &[&str]) -> Vec<String> {
    names.iter().map(|name| name.to_string()).collect()
}

fn fetch(data_id: &str, group: &str) -> SyncAction {
    SyncAction::Fetch { data_id: data_id.to_string(), group: group.to_string() }
}

fn publish(data_id: &str, content: &str) -> SyncAction {
    SyncAction::Publish {
        data_id: data_id.to_string(),
        group: "DEFAULT_GROUP".to_string(),
        content: content.to_string(),
        config_type: "yaml".to_string(),
    }
}

fn synced(data_id: &str) -> SyncOutcome {
    SyncOutcome { data_id: data_id.to_string(), status: SyncStatus::Synced, error: None }
}

fn failed(data_id: &str, kind: ErrorKind, detail: &str) -> SyncOutcome {
    SyncOutcome {
        data_id: data_id.to_string(),
        status: SyncStatus::Failed,
        error: Some(SyncError { kind, detail: detail.to_string() }),
    }
}

struct Published {
    data_id: String,
    group: String,
    content: String,
    config_type: String,
}

fn drive(
    names: &[&str],
    rules: Vec<IgnoreItem>,
    source: &dyn Fn(&str) -> Result<String, String>,
    destination: &dyn Fn(&str) -> Result<bool, String>,
) -> (Vec<SyncOutcome>, Vec<Published>) {
    let mut run = SyncRun::new(ids(names), rules);
    let mut published = Vec::new();
    loop {
        let event = match run.action() {
            SyncAction::Fetch { data_id, group } => {
                assert_eq!(group, "DEFAULT_GROUP");
                SyncEvent::Fetched(source(&data_id))
            }
            SyncAction::Publish { data_id, group, content, config_type } => {
                let answer = destination(&data_id);
                published.push(Published { data_id, group, content, config_type });
                SyncEvent::Published(answer)
            }
            SyncAction::Finish => break,
        };
        run = run.step(event);
    }
    (run.outcomes(), published)
}

#[test]
fn a_failed_fetch_does_not_stop_the_pass() {
    let source = |data_id: &str| {
        if data_id == "second" {
            Err("not found".to_string())
        } else {
            Ok(format!("name: {}\n", data_id))
        }
    };
    let (outcomes, published) = drive(&["first", "second", "third"], vec![], &source, &|_| Ok(true));
    assert_eq!(
        outcomes,
        vec![
            synced("first"),
            failed("second", ErrorKind::FetchFailure, "not found"),
            synced("third"),
        ]
    );
    assert_eq!(published.len(), 2);
    assert_eq!(published[0].data_id, "first");
    assert_eq!(published[0].content, "name: first\n");
    assert_eq!(published[1].data_id, "third");
    assert_eq!(published[1].content, "name: third\n");
}

#[test]
fn a_failed_publication_does_not_stop_the_pass() {
    let destination = |data_id: &str| {
        if data_id == "one" {
            Err("refused".to_string())
        } else {
            Ok(true)
        }
    };
    let (outcomes, published) = drive(&["one", "two"], vec![], &|_| Ok("a: 1\n".to_string()), &destination);
    assert_eq!(outcomes, vec![failed("one", ErrorKind::PublishFailure, "refused"), synced("two")]);
    assert_eq!(published.len(), 2);
}

#[test]
fn a_text_that_does_not_parse_fails_its_document_only() {
    let source = |data_id: &str| {
        if data_id == "broken" {
            Ok("- not\n- a mapping\n".to_string())
        } else {
            Ok("a: 1\n".to_string())
        }
    };
    let (outcomes, published) = drive(&["broken", "fine"], vec![], &source, &|_| Ok(true));
    assert_eq!(outcomes.len(), 2);
    assert_eq!(outcomes[0].data_id, "broken");
    assert_eq!(outcomes[0].status, SyncStatus::Failed);
    assert_eq!(outcomes[0].error.as_ref().unwrap().kind, ErrorKind::ParseError);
    assert_eq!(outcomes[1], synced("fine"));
    assert_eq!(published.len(), 1);
    assert_eq!(published[0].data_id, "fine");
}

#[test]
fn an_acknowledgment_of_false_still_counts_as_published() {
    let (outcomes, _) = drive(&["x"], vec![], &|_| Ok("a: 1\n".to_string()), &|_| Ok(false));
    assert_eq!(outcomes, vec![synced("x")]);
}

#[test]
fn an_empty_pass_finishes_at_once() {
    let run = SyncRun::new(vec![], two_rules());
    assert_eq!(run.action(), SyncAction::Finish);
    let run = run.step(SyncEvent::Fetched(Ok("a: 1\n".to_string())));
    assert_eq!(run.action(), SyncAction::Finish);
    assert_eq!(run.outcomes(), vec![]);
}

#[test]
fn documents_are_published_in_the_default_group_as_yaml() {
    let (_, published) = drive(&["x"], vec![], &|_| Ok("a: 1\n".to_string()), &|_| Ok(true));
    assert_eq!(published.len(), 1);
    assert_eq!(published[0].group, "DEFAULT_GROUP");
    assert_eq!(published[0].config_type, "yaml");
}

#[test]
fn the_machine_goes_from_fetch_to_publish_to_the_next_fetch() {
    let run = SyncRun::new(ids(&["one", "two"]), vec![]);
    assert_eq!(run.action(), fetch("one", "DEFAULT_GROUP"));
    let run = run.step(SyncEvent::Fetched(Ok("k: v\n".to_string())));
    assert_eq!(run.action(), publish("one", "k: v\n"));
    let run = run.step(SyncEvent::Published(Ok(true)));
    assert_eq!(run.action(), fetch("two", "DEFAULT_GROUP"));
    let run = run.step(SyncEvent::Fetched(Err("gone".to_string())));
    assert_eq!(run.action(), SyncAction::Finish);
    assert_eq!(run.outcomes(), vec![synced("one"), failed("two", ErrorKind::FetchFailure, "gone")]);
}

#[test]
fn an_event_that_answers_nothing_changes_nothing() {
    let run = SyncRun::new(ids(&["one"]), vec![]);
    let run = run.step(SyncEvent::Published(Ok(true)));
    assert_eq!(run.action(), fetch("one", "DEFAULT_GROUP"));
    let run = run.step(SyncEvent::Fetched(Ok("k: v\n".to_string())));
    let run = run.step(SyncEvent::Fetched(Ok("other: 1\n".to_string())));
    assert_eq!(run.action(), publish("one", "k: v\n"));
    let run = run.step(SyncEvent::Published(Ok(true)));
    let run = run.step(SyncEvent::Published(Ok(true)));
    assert_eq!(run.action(), SyncAction::Finish);
    assert_eq!(run.outcomes(), vec![synced("one")]);
}

#[test]
fn a_document_without_a_rule_is_not_masked() {
    let text = "secret: s\nport: 1\nname: n\n";
    let (outcomes, published) = drive(&["c"], two_rules(), &|_| Ok(text.to_string()), &|_| Ok(true));
    assert_eq!(outcomes, vec![synced("c")]);
    assert_eq!(published[0].content, "secret: s\nport: 1\nname: n\n");
}

#[test]
fn a_document_with_a_rule_gets_the_mask_declared_first() {
    let text = "secret: s\nport: 1\nname: n\n";
    let source = |_: &str| Ok(text.to_string());
    let (_, published) = drive(&["a", "b"], two_rules(), &source, &|_| Ok(true));
    assert_eq!(published[0].data_id, "a");
    assert_eq!(published[0].content, "port: 1\nname: n\n");
    assert_eq!(published[1].data_id, "b");
    assert_eq!(published[1].content, "port: 1\nname: n\n");
}

#[test]
fn the_rule_table_looks_up_by_any_match_and_hands_out_the_first_mask() {
    let rules = two_rules();
    assert!(has_rule(&rules, "a"));
    assert!(has_rule(&rules, "b"));
    assert!(!has_rule(&rules, "c"));
    assert_eq!(lookup(&rules, "a").unwrap(), &rules[0]);
    assert_eq!(lookup(&rules, "b").unwrap(), &rules[0]);
    assert_eq!(lookup(&rules, "b").unwrap().data_id, "a");
    assert!(lookup(&rules, "c").is_none());
    assert!(lookup(&vec![], "a").is_none());
}

#[test]
fn mask_document_applies_the_chosen_mask() {
    let rules = two_rules();
    let document = parse_document("secret: s\nport: 1\n").unwrap();
    assert_eq!(mask_document(&rules, "c", document.clone()), document);
    assert_eq!(mask_document(&rules, "b", document.clone()), parse_document("port: 1\n").unwrap());
    assert_eq!(mask_document(&rules, "a", document), parse_document("port: 1\n").unwrap());
}

#[test]
fn prepare_reads_masks_and_writes() {
    let rules = two_rules();
    assert_eq!(prepare(&rules, "a", "secret: s\nname:\n  first: John\n").unwrap(), "name:\n  first: John\n");
    assert_eq!(prepare(&rules, "a", "secret: s\n").unwrap(), "{}\n");
    assert_eq!(prepare(&rules, "z", "secret: s\n").unwrap(), "secret: s\n");
    assert_eq!(prepare(&rules, "a", ": :").unwrap_err().kind, ErrorKind::ParseError);
}

fn endpoint(addr: &str) -> Nacos {
    Nacos {
        addr: addr.to_string(),
        namespace: "public".to_string(),
        username: None,
        password: None,
        app_name: None,
    }
}

#[test]
fn a_configuration_without_rules_has_an_empty_table() {
    let config = Config { from: endpoint("a:1"), to: endpoint("b:2"), ignore: None };
    assert_eq!(config.rules(), vec![]);
    let config = Config { from: endpoint("a:1"), to: endpoint("b:2"), ignore: Some(two_rules()) };
    assert_eq!(config.rules(), two_rules());
}

#[test]
fn a_number_that_cannot_be_written_fails_its_document() {
    let mut document = Mapping::new();
    document.insert("n".to_string(), DocumentNode::Scalar(Scalar::Number("1.2.3".to_string())));
    let error = render_document(&DocumentNode::Mapping(document)).unwrap_err();
    assert_eq!(error.kind, ErrorKind::SerializeFailure);
}
