use credprobe::args::Args;

fn args(threads: Option<&str>, verbose: i32) -> Args {
    Args {
        hostlist: "hosts.txt".to_string(),
        wordlist: "words.txt".to_string(),
        threads: threads.map(|t| t.to_string()),
        verbose,
    }
}

#[test]
fn the_verbose_flag_makes_the_reporter_verbose() {
    assert!(!args(None, 0).reporter().is_verbose());
    assert!(args(None, 1).reporter().is_verbose());
    assert!(args(None, 4).reporter().is_verbose());
}

#[test]
fn the_typed_number_of_workers_is_the_capacity() {
    assert_eq!(args(Some("6"), 0).capacity(2), 6);
    assert_eq!(args(Some("6"), 0).worker_capacity(), 6);
}

#[test]
fn a_non_numeric_number_of_workers_gives_the_processing_units() {
    assert_eq!(args(Some("abc"), 0).capacity(4), 4);
    assert_eq!(args(Some("abc"), 0).worker_capacity(), num_cpus::get());
}

#[test]
fn no_number_of_workers_gives_the_processing_units() {
    assert_eq!(args(None, 0).capacity(4), 4);
    assert_eq!(args(None, 0).worker_capacity(), num_cpus::get());
}
