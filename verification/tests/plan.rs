use credprobe::credential::ConfigError;
use credprobe::plan::Plan;

fn strings(items: &[&str]) -> Vec<String> {
    items.iter().map(|s| s.to_string()).collect()
}

#[test]
fn a_run_is_prepared_from_hosts_and_word_list() {
    let plan = Plan::prepare(strings(&["h1", "h2", "h1"]), &strings(&["u1:p1", "u2:p2"])).unwrap();
    assert_eq!(plan.registry.len(), 2);
    assert!(!plan.registry.is_found(0));
    assert!(!plan.registry.is_found(1));
    let listed: Vec<String> = plan
        .tasks
        .iter()
        .map(|t| {
            format!(
                "{} {} {} {}",
                t.host.index, t.host.address, t.credential.username, t.credential.password
            )
        })
        .collect();
    assert_eq!(listed, strings(&["0 h1 u1 p1", "0 h1 u2 p2", "1 h2 u1 p1", "1 h2 u2 p2"]));
}

#[test]
fn every_task_names_a_host_of_the_registry() {
    let plan =
        Plan::prepare(strings(&["a", "b", "c", "b"]), &strings(&["x:1", "y:2", "z:3"])).unwrap();
    assert_eq!(plan.tasks.len(), 9);
    for task in &plan.tasks {
        assert!(task.host.index < plan.registry.len());
        assert_eq!(plan.registry.host(task.host.index).address, task.host.address);
    }
}

#[test]
fn a_malformed_word_list_leaves_no_plan() {
    let prepared = Plan::prepare(strings(&["h1"]), &strings(&["nouserpass"]));
    assert!(matches!(prepared, Err(ConfigError::MalformedCredential { line: 0 })));
}

#[test]
fn one_malformed_line_among_good_ones_leaves_no_plan() {
    let prepared = Plan::prepare(strings(&["h1", "h2"]), &strings(&["u1:p1", "u2p2", "u3:p3"]));
    assert!(matches!(prepared, Err(ConfigError::MalformedCredential { line: 1 })));
}

#[test]
fn an_empty_host_list_gives_a_plan_without_tasks() {
    let plan = Plan::prepare(Vec::new(), &strings(&["u1:p1"])).unwrap();
    assert_eq!(plan.registry.len(), 0);
    assert!(plan.tasks.is_empty());
}

#[test]
fn an_empty_word_list_gives_a_plan_without_tasks() {
    let plan = Plan::prepare(strings(&["h1", "h2"]), &Vec::new()).unwrap();
    assert_eq!(plan.registry.len(), 2);
    assert!(plan.tasks.is_empty());
}
