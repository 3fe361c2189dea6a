//! What the spawner decides before and after it forks: how a command line
//! becomes a program with arguments, and which event reports the outcome.

use crate::formats::{text_view, Event, EventView, Pid, Service, ServiceStatus};
use crate::repository::ServiceRepository;
use vstd::prelude::*;

verus! {

/// The words into which `shlex::split` cuts a command line, or `None` where
/// it finds the line malformed.
pub uninterp spec fn shlex_split(command: Seq<char>) -> Option<Seq<Seq<char>>>;

/// The views of an optional list of strings.
pub open spec fn words_view(words: Option<Vec<String>>) -> Option<Seq<Seq<char>>> {
    match words {
        Some(w) => Some(w.deep_view()),
        None => None,
    }
}

/// Calls `shlex::split`, which cuts a command line into words by the quoting
/// rules of the POSIX shell. The contract is taken on trust. It only gives
/// the result its name, which claims that the same line always yields the
/// same words; what the words are is left to `shlex`.
#[verifier::external_body]
fn split_command(command: &str) -> (words: Option<Vec<String>>)
    ensures
        words_view(words) == shlex_split(command@),
{
    shlex::split(command)
}

/// Why a service cannot be executed.
#[derive(Clone, Copy, Debug, PartialEq, Eq, Structural)]
pub enum SpawnError {
    /// The command line ends inside a quotation or after a lone backslash.
    MalformedCommand,
    /// The command line holds no word.
    EmptyCommand,
    /// A word holds a NUL character, which no program argument can.
    NulInCommand,
}

/// What to execute, and where.
#[derive(Debug, PartialEq, Eq)]
pub struct ExecPlan {
    pub working_directory: String,
    pub program: String,
    pub args: Vec<String>,
}

pub struct ExecPlanView {
    pub working_directory: Seq<char>,
    pub program: Seq<char>,
    pub args: Seq<Seq<char>>,
}

impl View for ExecPlan {
    type V = ExecPlanView;

    open spec fn view(&self) -> ExecPlanView {
        ExecPlanView {
            working_directory: self.working_directory@,
            program: self.program@,
            args: self.args.deep_view(),
        }
    }
}

/// The view of a plan or of the reason why there is none.
pub open spec fn plan_view(plan: Result<ExecPlan, SpawnError>) -> Result<ExecPlanView, SpawnError> {
    match plan {
        Ok(p) => Ok(p@),
        Err(e) => Err(e),
    }
}

/// Whether some word holds a NUL character.
pub open spec fn holds_nul(words: Seq<Seq<char>>) -> bool {
    exists|i: int| 0 <= i < words.len() && (#[trigger] words[i]).contains('\0')
}

/// The plan for a service with the given working directory whose command
/// line was cut into `words`.
///
/// The service runs in its working directory, or in `/` when it names none.
/// The first word is the program, and all the words, the first included, are
/// its arguments.
pub open spec fn plan_for(
    working_directory: Option<Seq<char>>,
    words: Option<Seq<Seq<char>>>,
) -> Result<ExecPlanView, SpawnError> {
    match words {
        None => Err(SpawnError::MalformedCommand),
        Some(w) => if w.len() == 0 {
            Err(SpawnError::EmptyCommand)
        } else if holds_nul(w) {
            Err(SpawnError::NulInCommand)
        } else {
            Ok(
                ExecPlanView {
                    working_directory: match working_directory {
                        Some(d) => d,
                        None => seq!['/'],
                    },
                    program: w[0],
                    args: w,
                },
            )
        },
    }
}

/// Whether the text holds a NUL character.
pub fn contains_nul(text: &str) -> (found: bool)
    ensures
        found == text@.contains('\0'),
{
    let n = text.unicode_len();
    let mut i: usize = 0;
    while i < n
        invariant
            i <= n,
            n == text@.len(),
            forall|j: int| 0 <= j < i ==> text@[j] != '\0',
        decreases n - i,
    {
        if text.get_char(i) == '\0' {
            return true;
        }
        i += 1;
    }
    false
}

/// Builds the plan from the words of an already split command line.
pub fn exec_plan_from_words(working_directory: &Option<String>, words: Option<Vec<String>>) -> (plan:
    Result<ExecPlan, SpawnError>)
    ensures
        plan_view(plan) == plan_for(text_view(*working_directory), words_view(words)),
{
    let ghost given = words_view(words);
    let list = match words {
        Some(w) => w,
        None => {
            return Err(SpawnError::MalformedCommand);
        },
    };
    if list.len() == 0 {
        return Err(SpawnError::EmptyCommand);
    }
    let mut i: usize = 0;
    while i < list.len()
        invariant
            i <= list.len(),
            list.len() > 0,
            given == Some(list.deep_view()),
            given == words_view(words),
            forall|j: int| 0 <= j < i ==> !(#[trigger] list.deep_view()[j]).contains('\0'),
        decreases list.len() - i,
    {
        assert(list.deep_view()[i as int] == list[i as int]@);
        if contains_nul(list[i].as_str()) {
            assert(holds_nul(list.deep_view()));
            return Err(SpawnError::NulInCommand);
        }
        i += 1;
    }
    let working_directory = match working_directory {
        Some(d) => d.clone(),
        None => {
            proof {
                reveal_strlit("/");
            }
            let root = "/".to_owned();
            assert(root@ =~= seq!['/']);
            root
        },
    };
    assert(list.deep_view()[0] == list[0]@);
    let program = list[0].clone();
    Ok(ExecPlan { working_directory, program, args: list })
}

/// The plan for executing a command line in a working directory.
pub fn exec_plan_of(command: &str, working_directory: &Option<String>) -> (plan: Result<
    ExecPlan,
    SpawnError,
>)
    ensures
        plan_view(plan) == plan_for(text_view(*working_directory), shlex_split(command@)),
{
    let words = split_command(command);
    exec_plan_from_words(working_directory, words)
}

/// The plan for executing a service: where to change directory to, which
/// program to run and with which arguments.
pub fn exec_plan(service: &Service) -> (plan: Result<ExecPlan, SpawnError>)
    ensures
        plan_view(plan) == plan_for(service@.working_directory, shlex_split(service@.command)),
{
    exec_plan_of(service.command.as_str(), &service.working_directory)
}

/// The event that reports how forking the named service went: the pid of the
/// child, or the failure of the service.
pub open spec fn spawn_report(name: Seq<char>, forked: Option<Pid>) -> EventView {
    match forked {
        Some(pid) => EventView::ServicePidAssigned(name, pid),
        None => EventView::StatusChanged(name, ServiceStatus::Failed),
    }
}

/// Records the outcome of a fork. A pid is only announced: the table takes it
/// up when the event comes back over the bus. A failure is announced and
/// recorded at once.
pub fn report_spawn(repo: &mut ServiceRepository, name: String, forked: Option<Pid>) -> (published:
    Event)
    ensures
        published@ == spawn_report(name@, forked),
        final(repo)@ == (match forked {
            Some(_) => old(repo)@,
            None => old(repo)@.fold(published@),
        }),
        final(repo).wf(),
{
    match forked {
        Some(pid) => {
            repo.upholds_invariant();
            repo.update_pid(name, pid)
        },
        None => repo.update_status(name.as_str(), ServiceStatus::Failed),
    }
}

} // verus!
