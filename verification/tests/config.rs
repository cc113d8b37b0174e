use std::cell::Cell;

use minigrep::{run, Config, ConfigError, CASE_INSENSITIVE};

fn args(list: &[&str]) -> Vec<String> {
    list.iter().map(|arg| arg.to_string()).collect()
}

#[test]
fn fewer_than_three_arguments_are_not_enough() {
    for list in [&[][..], &["minigrep"][..], &["minigrep", "duct"][..]] {
        assert_eq!(
            Err(ConfigError::NotEnoughArguments),
            Config::new(&args(list), |_| false)
        );
        assert_eq!(
            Err(ConfigError::NotEnoughArguments),
            Config::new(&args(list), |_| true)
        );
    }
}

#[test]
fn not_enough_arguments_has_a_fixed_message() {
    assert_eq!(
        "not enough arguments",
        ConfigError::NotEnoughArguments.message()
    );
}

#[test]
fn environment_is_not_consulted_without_enough_arguments() {
    let asked = Cell::new(0);
    let result = Config::new(&args(&["minigrep", "duct"]), |_| {
        asked.set(asked.get() + 1);
        true
    });
    assert_eq!(Err(ConfigError::NotEnoughArguments), result);
    assert_eq!(0, asked.get());
}

#[test]
fn three_arguments_resolve_to_query_and_filename() {
    let config = Config::new(&args(&["minigrep", "duct", "poem.txt"]), |_| false).unwrap();
    assert_eq!(
        Config {
            query: String::from("duct"),
            filename: String::from("poem.txt"),
            case_sensitive: true,
        },
        config
    );
}

#[test]
fn arguments_are_taken_as_they_stand() {
    let config = Config::new(&args(&["", "  Duct\t", " no such file "]), |_| false).unwrap();
    assert_eq!("  Duct\t", config.query);
    assert_eq!(" no such file ", config.filename);
    let config = Config::new(&args(&["minigrep", "", ""]), |_| false).unwrap();
    assert_eq!("", config.query);
    assert_eq!("", config.filename);
}

#[test]
fn further_arguments_are_ignored() {
    let config = Config::new(
        &args(&["minigrep", "duct", "poem.txt", "other.txt", "-i"]),
        |_| false,
    )
    .unwrap();
    assert_eq!("duct", config.query);
    assert_eq!("poem.txt", config.filename);
    assert!(config.case_sensitive);
}

#[test]
fn search_is_case_sensitive_unless_the_variable_is_set() {
    let list = args(&["minigrep", "duct", "poem.txt"]);
    assert!(Config::new(&list, |_| false).unwrap().case_sensitive);
    assert!(!Config::new(&list, |_| true).unwrap().case_sensitive);
}

#[test]
fn only_the_case_insensitive_variable_counts() {
    let list = args(&["minigrep", "duct", "poem.txt"]);
    let others = |name: &str| name == "CASE_SENSITIVE" || name == "case_insensitive" || name == "";
    assert!(Config::new(&list, others).unwrap().case_sensitive);
    let exactly = |name: &str| name == "CASE_INSENSITIVE";
    assert!(!Config::new(&list, exactly).unwrap().case_sensitive);
}

#[test]
fn the_variable_is_looked_up_once_by_its_name() {
    let asked = Cell::new(0);
    let list = args(&["minigrep", "duct", "poem.txt"]);
    let config = Config::new(&list, |name| {
        assert_eq!("CASE_INSENSITIVE", name);
        asked.set(asked.get() + 1);
        false
    })
    .unwrap();
    assert!(config.case_sensitive);
    assert_eq!(1, asked.get());
    assert_eq!("CASE_INSENSITIVE", CASE_INSENSITIVE);
}

#[test]
fn run_searches_exactly_when_the_configuration_is_case_sensitive() {
    let config = Config {
        query: String::from("duct"),
        filename: String::from("poem.txt"),
        case_sensitive: true,
    };
    let contents = "Rust:\nsaft,fast,productive.\nPick three.\nDuct tap.";
    assert_eq!(vec!["saft,fast,productive."], run(&config, contents));
}

#[test]
fn run_ignores_case_when_the_configuration_is_case_insensitive() {
    let config = Config {
        query: String::from("duct"),
        filename: String::from("poem.txt"),
        case_sensitive: false,
    };
    let contents = "Rust:\nsaft,fast,productive.\nPick three.\nDuct tap.";
    assert_eq!(
        vec!["saft,fast,productive.", "Duct tap."],
        run(&config, contents)
    );
}

#[test]
fn run_reports_nothing_when_no_line_matches() {
    let config = Config {
        query: String::from("monomorphization"),
        filename: String::from("poem.txt"),
        case_sensitive: false,
    };
    assert_eq!(Vec::<&str>::new(), run(&config, "Rust:\nPick three."));
    assert_eq!(Vec::<&str>::new(), run(&config, ""));
}

#[test]
fn run_does_not_read_the_filename() {
    let config = Config {
        query: String::from("a"),
        filename: String::from("a"),
        case_sensitive: true,
    };
    assert_eq!(vec!["a"], run(&config, "a\nb"));
}
