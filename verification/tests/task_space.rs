use credprobe::credential::Credential;
use credprobe::registry::HostRegistry;
use credprobe::task_space::build;

fn strings(items: &[&str]) -> Vec<String> {
    items.iter().map(|s| s.to_string()).collect()
}

fn credentials(items: &[(&str, &str)]) -> Vec<Credential> {
    items
        .iter()
        .map(|(u, p)| Credential { username: u.to_string(), password: p.to_string() })
        .collect()
}

#[test]
fn tasks_are_listed_host_by_host() {
    let registry = HostRegistry::register(strings(&["h1", "h2", "h3"]));
    let creds = credentials(&[("u1", "p1"), ("u2", "p2")]);
    let tasks = build(&registry.hosts(), &creds);
    let listed: Vec<(usize, String, String, String)> = tasks
        .iter()
        .map(|t| {
            (
                t.host.index,
                t.host.address.clone(),
                t.credential.username.clone(),
                t.credential.password.clone(),
            )
        })
        .collect();
    let expected: Vec<(usize, String, String, String)> = vec![
        (0, "h1", "u1", "p1"),
        (0, "h1", "u2", "p2"),
        (1, "h2", "u1", "p1"),
        (1, "h2", "u2", "p2"),
        (2, "h3", "u1", "p1"),
        (2, "h3", "u2", "p2"),
    ]
    .into_iter()
    .map(|(i, h, u, p)| (i, h.to_string(), u.to_string(), p.to_string()))
    .collect();
    assert_eq!(listed, expected);
}

#[test]
fn the_task_of_host_i_and_credential_j_stands_at_i_times_c_plus_j() {
    let registry = HostRegistry::register(strings(&["a", "b", "c", "d"]));
    let creds = credentials(&[("x", "1"), ("y", "2"), ("z", "3")]);
    let tasks = build(&registry.hosts(), &creds);
    assert_eq!(tasks.len(), 12);
    for i in 0..4 {
        for j in 0..3 {
            let task = &tasks[i * 3 + j];
            assert_eq!(task.host.index, i);
            assert_eq!(task.host.address, registry.host(i).address);
            assert_eq!(task.credential.username, creds[j].username);
            assert_eq!(task.credential.password, creds[j].password);
        }
    }
}

#[test]
fn no_hosts_no_tasks() {
    let registry = HostRegistry::register(Vec::new());
    let tasks = build(&registry.hosts(), &credentials(&[("u", "p")]));
    assert!(tasks.is_empty());
}

#[test]
fn no_credentials_no_tasks() {
    let registry = HostRegistry::register(strings(&["h1", "h2"]));
    let tasks = build(&registry.hosts(), &Vec::new());
    assert!(tasks.is_empty());
}

#[test]
fn one_host_one_credential_one_task() {
    let registry = HostRegistry::register(strings(&["h"]));
    let tasks = build(&registry.hosts(), &credentials(&[("u", "p")]));
    assert_eq!(tasks.len(), 1);
    assert_eq!(tasks[0].host.index, 0);
    assert_eq!(tasks[0].host.address, "h");
    assert_eq!(tasks[0].credential.username, "u");
    assert_eq!(tasks[0].credential.password, "p");
}
