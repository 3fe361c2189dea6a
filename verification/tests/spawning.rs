use horust::formats::Service;
use horust::spawner::{contains_nul, exec_plan, exec_plan_from_words, ExecPlan, SpawnError};

fn words(list: &[&str]) -> Vec<String> {
    list.iter().map(|w| w.to_string()).collect()
}

fn plan_of(command: &str) -> Result<ExecPlan, SpawnError> {
    exec_plan(&Service::from_command(command.to_string()))
}

#[test]
fn plain_command_is_split_on_blanks() {
    let plan = plan_of("sleep 60").unwrap();
    assert_eq!(plan.program, "sleep");
    assert_eq!(plan.args, words(&["sleep", "60"]));
    assert_eq!(plan.working_directory, "/");
}

#[test]
fn program_without_arguments_is_its_own_first_argument() {
    let plan = plan_of("/bin/true").unwrap();
    assert_eq!(plan.program, "/bin/true");
    assert_eq!(plan.args, words(&["/bin/true"]));
}

#[test]
fn quotes_group_words() {
    let plan = plan_of("sh -c 'echo \"hello world\"; exit 1'").unwrap();
    assert_eq!(plan.program, "sh");
    assert_eq!(plan.args, words(&["sh", "-c", "echo \"hello world\"; exit 1"]));
    let plan = plan_of("  echo   \"a b\"c   d\\ e ").unwrap();
    assert_eq!(plan.args, words(&["echo", "a bc", "d e"]));
}

#[test]
fn working_directory_of_the_service_is_kept() {
    let mut service = Service::from_command("ls -l".to_string());
    service.working_directory = Some("/var/lib/app".to_string());
    let plan = exec_plan(&service).unwrap();
    assert_eq!(plan.working_directory, "/var/lib/app");
    assert_eq!(plan.program, "ls");
}

#[test]
fn unterminated_quote_is_malformed() {
    assert_eq!(plan_of("echo 'oops"), Err(SpawnError::MalformedCommand));
    assert_eq!(plan_of("echo \"oops"), Err(SpawnError::MalformedCommand));
    assert_eq!(plan_of("echo oops\\"), Err(SpawnError::MalformedCommand));
}

#[test]
fn command_without_words_is_empty() {
    assert_eq!(plan_of(""), Err(SpawnError::EmptyCommand));
    assert_eq!(plan_of("   \t "), Err(SpawnError::EmptyCommand));
    assert_eq!(plan_of("# only a comment"), Err(SpawnError::EmptyCommand));
}

#[test]
fn nul_in_a_word_is_refused() {
    assert_eq!(plan_of("echo a\0b"), Err(SpawnError::NulInCommand));
    assert_eq!(
        exec_plan_from_words(&None, Some(words(&["echo", "ok", "\0"]))),
        Err(SpawnError::NulInCommand)
    );
}

#[test]
fn plan_from_words_covers_every_case() {
    assert_eq!(exec_plan_from_words(&None, None), Err(SpawnError::MalformedCommand));
    assert_eq!(exec_plan_from_words(&None, Some(vec![])), Err(SpawnError::EmptyCommand));
    assert_eq!(
        exec_plan_from_words(&Some("/srv".to_string()), Some(words(&["a", "b"]))),
        Ok(ExecPlan {
            working_directory: "/srv".to_string(),
            program: "a".to_string(),
            args: words(&["a", "b"]),
        })
    );
    assert_eq!(
        exec_plan_from_words(&None, Some(words(&["a"]))),
        Ok(ExecPlan {
            working_directory: "/".to_string(),
            program: "a".to_string(),
            args: words(&["a"]),
        })
    );
}

#[test]
fn nul_is_found_anywhere_in_a_text() {
    assert!(!contains_nul(""));
    assert!(!contains_nul("héllo wörld"));
    assert!(contains_nul("\0"));
    assert!(contains_nul("héllo\0"));
    assert!(contains_nul("\0wörld"));
}
