use vstd::prelude::*;
use vstd::string::*;

use crate::config::Config;
use crate::mode::{get_mode, mode_of, Modes};

verus! {

/// The three file-system removals.
#[derive(Clone, Copy, Debug, PartialEq, Eq, Structural)]
pub enum Removal {
    /// A directory with everything in it.
    Tree,
    /// A directory, which must be empty.
    EmptyDirectory,
    /// A single file.
    File,
}

/// What the caller is to do next for a deletion in progress.
#[derive(Debug)]
pub enum Action {
    /// Ask the file system whether the path exists and is a directory.
    Inspect,
    /// Show the prompt and read one line of confirmation.
    Confirm,
    /// Perform this removal on the path.
    Remove(Removal),
    /// The deletion is over and succeeded.
    Done,
    /// The deletion is over and failed with this message.
    Fail(String),
}

/// The mathematical value of an `Action`.
pub enum ActionView {
    Inspect,
    Confirm,
    Remove(Removal),
    Done,
    Fail(Seq<char>),
}

impl View for Action {
    type V = ActionView;

    open spec fn view(&self) -> ActionView {
        match self {
            Action::Inspect => ActionView::Inspect,
            Action::Confirm => ActionView::Confirm,
            Action::Remove(k) => ActionView::Remove(*k),
            Action::Done => ActionView::Done,
            Action::Fail(m) => ActionView::Fail(m@),
        }
    }
}

/// What the caller has seen so far of a deletion: whether the path is a
/// directory (or the file-system error's description), the line of
/// confirmation read, and the outcome of the removal.
pub struct Observed {
    pub metadata: Option<Result<bool, String>>,
    pub answer: Option<Vec<u8>>,
    pub removal: Option<Result<(), String>>,
}

/// The mathematical value of an `Observed`.
pub struct ObservedView {
    pub metadata: Option<Result<bool, Seq<char>>>,
    pub answer: Option<Seq<u8>>,
    pub removal: Option<Result<(), Seq<char>>>,
}

impl View for Observed {
    type V = ObservedView;

    open spec fn view(&self) -> ObservedView {
        ObservedView {
            metadata: match self.metadata {
                None => None,
                Some(Ok(d)) => Some(Ok(d)),
                Some(Err(e)) => Some(Err(e@)),
            },
            answer: match self.answer {
                None => None,
                Some(a) => Some(a@),
            },
            removal: match self.removal {
                None => None,
                Some(Ok(u)) => Some(Ok(u)),
                Some(Err(e)) => Some(Err(e@)),
            },
        }
    }
}

/// The error for a declined confirmation.
pub open spec fn canceled_msg() -> Seq<char> {
    "Operation canceled"@
}

/// The modes that ask before removing anything.
pub open spec fn confirms(mode: Modes) -> bool {
    mode == Modes::Standard || mode == Modes::OnlyRecursively
}

/// The modes whose file-system errors never reach the caller.
pub open spec fn suppresses(mode: Modes) -> bool {
    mode == Modes::OnlyForce || mode == Modes::RecursivelyAndForce
}

/// The removal that a mode performs on a directory or on a file.
pub open spec fn removal_of(mode: Modes, is_dir: bool) -> Removal {
    if !is_dir {
        Removal::File
    } else if mode == Modes::RecursivelyAndForce || mode == Modes::OnlyRecursively {
        Removal::Tree
    } else {
        Removal::EmptyDirectory
    }
}

/// A line of input that confirms: `y` or `Y` and a newline, nothing else.
pub open spec fn is_yes(line: Seq<u8>) -> bool {
    line == seq![121u8, 10u8] || line == seq![89u8, 10u8]
}

/// The prompt shown before a removal in the asking modes.
pub open spec fn prompt_of(path: Seq<char>) -> Seq<char> {
    "remove directory: '"@ + path + "'? (Y/n): "@
}

/// A file-system error is reported, or swallowed in the forcing modes.
pub open spec fn outcome_of(mode: Modes, error: Seq<char>) -> ActionView {
    if suppresses(mode) {
        ActionView::Done
    } else {
        ActionView::Fail(error)
    }
}

/// The next step of a deletion in `mode`, given what has been seen.
pub open spec fn next_action(mode: Modes, seen: ObservedView) -> ActionView {
    match seen.metadata {
        None => ActionView::Inspect,
        Some(Err(e)) => outcome_of(mode, e),
        Some(Ok(is_dir)) => {
            if confirms(mode) && seen.answer is None {
                ActionView::Confirm
            } else if confirms(mode) && !is_yes(seen.answer->0) {
                ActionView::Fail(canceled_msg())
            } else {
                match seen.removal {
                    None => ActionView::Remove(removal_of(mode, is_dir)),
                    Some(Ok(_)) => ActionView::Done,
                    Some(Err(e)) => outcome_of(mode, e),
                }
            }
        },
    }
}

/// Whether `mode` asks for confirmation before removing.
pub fn needs_confirmation(mode: Modes) -> (r: bool)
    ensures
        r == confirms(mode),
{
    match mode {
        Modes::Standard | Modes::OnlyRecursively => true,
        _ => false,
    }
}

/// Whether `mode` swallows file-system errors.
pub fn suppresses_errors(mode: Modes) -> (r: bool)
    ensures
        r == suppresses(mode),
{
    match mode {
        Modes::OnlyForce | Modes::RecursivelyAndForce => true,
        _ => false,
    }
}

/// The removal that `mode` performs on a directory (`is_dir`) or a file.
pub fn removal_for(mode: Modes, is_dir: bool) -> (k: Removal)
    ensures
        k == removal_of(mode, is_dir),
{
    if !is_dir {
        Removal::File
    } else {
        match mode {
            Modes::RecursivelyAndForce | Modes::OnlyRecursively => Removal::Tree,
            _ => Removal::EmptyDirectory,
        }
    }
}

/// Whether a line read as confirmation (its bytes, newline included) says yes.
pub fn is_confirmation(line: &[u8]) -> (r: bool)
    ensures
        r == is_yes(line@),
{
    let yes = line.len() == 2 && (line[0] == 121u8 || line[0] == 89u8) && line[1] == 10u8;
    proof {
        if yes {
            if line@[0] == 121u8 {
                assert(line@ =~= seq![121u8, 10u8]);
            } else {
                assert(line@ =~= seq![89u8, 10u8]);
            }
        }
    }
    yes
}

/// The prompt for the removal of `path`, shown without a newline.
pub fn prompt_text(path: &String) -> (r: String)
    ensures
        r@ == prompt_of(path@),
{
    let mut text = String::from_str("remove directory: '");
    text.append(path.as_str());
    text.append("'? (Y/n): ");
    text
}

fn report(mode: Modes, error: &String) -> (a: Action)
    ensures
        a@ == outcome_of(mode, error@),
{
    if suppresses_errors(mode) {
        Action::Done
    } else {
        Action::Fail(error.clone())
    }
}

/// In the asking modes, once the path has been inspected and a line read,
/// only `y` or `Y` and a newline lead to the removal; any other line ends the
/// deletion as canceled, whatever else was seen, so nothing is removed.
pub proof fn lemma_confirmation_gates_removal(mode: Modes, seen: ObservedView)
    requires
        confirms(mode),
        seen.metadata is Some,
        seen.metadata->0 is Ok,
        seen.answer is Some,
    ensures
        is_yes(seen.answer->0) && seen.removal is None ==> next_action(mode, seen)
            == ActionView::Remove(removal_of(mode, seen.metadata->0->Ok_0)),
        !is_yes(seen.answer->0) ==> next_action(mode, seen) == ActionView::Fail(canceled_msg()),
{
}

/// The forcing modes never ask for confirmation and never report a failure,
/// whatever the file system did.
pub proof fn lemma_force_never_asks_or_fails(mode: Modes, seen: ObservedView)
    requires
        mode == Modes::OnlyForce || mode == Modes::RecursivelyAndForce,
    ensures
        next_action(mode, seen) != ActionView::Confirm,
        !(next_action(mode, seen) is Fail),
{
}

/// Decides the next step of the deletion that `config` asks for, from what
/// the caller has seen so far. The caller performs the step, records what it
/// saw in `seen`, and asks again until the result is `Done` or `Fail`.
pub fn run(config: &Config, seen: &Observed) -> (a: Action)
    ensures
        a@ == next_action(mode_of(config.recursively, config.force), seen@),
{
    let mode = get_mode(config);
    match &seen.metadata {
        None => Action::Inspect,
        Some(Err(e)) => report(mode, e),
        Some(Ok(is_dir)) => {
            let asks = needs_confirmation(mode);
            if asks && seen.answer.is_none() {
                return Action::Confirm;
            }
            if asks {
                match &seen.answer {
                    Some(line) => {
                        if !is_confirmation(line.as_slice()) {
                            return Action::Fail(String::from_str("Operation canceled"));
                        }
                    },
                    None => {},
                }
            }
            match &seen.removal {
                None => Action::Remove(removal_for(mode, *is_dir)),
                Some(Ok(_)) => Action::Done,
                Some(Err(e)) => report(mode, e),
            }
        },
    }
}

} // verus!
