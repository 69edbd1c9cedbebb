use vstd::prelude::*;

use crate::config::{join_path, join_spec};

verus! {

/// The command line as given: the words after the options, and the
/// configuration path if one was named.
#[derive(Debug, Clone)]
pub struct CommandLineOptions {
    pub args: Vec<String>,
    pub config: Option<String>,
}

/// The operations that can be asked for.
#[derive(Debug, Clone, Copy, PartialEq, Eq, Structural)]
pub enum OperationKind {
    Open,
    List,
    Status,
    Push,
}

/// An operation with its target.
#[derive(Debug, Clone, PartialEq, Eq)]
pub enum Operation {
    Open(String),
    List,
    Status(String),
    Push(String),
}

/// The mathematical form of an [`Operation`].
pub enum OperationModel {
    Open(Seq<char>),
    List,
    Status(Seq<char>),
    Push(Seq<char>),
}

impl View for Operation {
    type V = OperationModel;

    open spec fn view(&self) -> OperationModel {
        match self {
            Operation::Open(t) => OperationModel::Open(t@),
            Operation::List => OperationModel::List,
            Operation::Status(t) => OperationModel::Status(t@),
            Operation::Push(t) => OperationModel::Push(t@),
        }
    }
}

/// Why the words of a command line name no operation.
#[derive(Debug, PartialEq, Eq, Structural)]
pub enum ArgsError {
    /// No word at all.
    NoArguments,
    /// The operation takes another number of arguments than were `given`.
    WrongCount { operation: OperationKind, given: usize },
    /// The first word names no operation.
    Unknown,
}

/// Why a command line cannot be run.
#[derive(Debug, PartialEq, Eq, Structural)]
pub enum CliError {
    /// No configuration path was named and no configuration home is known.
    NoConfigHome,
    Args(ArgsError),
}

/// The operation that a first word names, with its short forms.
pub open spec fn kind_of(term: Seq<char>) -> Option<OperationKind> {
    if term == "open"@ || term == "o"@ {
        Some(OperationKind::Open)
    } else if term == "list"@ || term == "l"@ {
        Some(OperationKind::List)
    } else if term == "status"@ || term == "s"@ {
        Some(OperationKind::Status)
    } else if term == "push"@ {
        Some(OperationKind::Push)
    } else {
        None
    }
}

/// How many words, the operation's own included, an operation takes.
pub open spec fn word_count(k: OperationKind) -> nat {
    match k {
        OperationKind::List => 1,
        _ => 2,
    }
}

/// The operation that the words name.
pub open spec fn parse_spec(args: Seq<Seq<char>>) -> Result<OperationModel, ArgsError> {
    if args.len() == 0 {
        Err(ArgsError::NoArguments)
    } else {
        match kind_of(args[0]) {
            None => Err(ArgsError::Unknown),
            Some(k) => if args.len() != word_count(k) {
                Err(ArgsError::WrongCount { operation: k, given: (args.len() - 1) as usize })
            } else {
                Ok(
                    match k {
                        OperationKind::Open => OperationModel::Open(args.last()),
                        OperationKind::List => OperationModel::List,
                        OperationKind::Status => OperationModel::Status(args.last()),
                        OperationKind::Push => OperationModel::Push(args.last()),
                    },
                )
            },
        }
    }
}

/// The mathematical form of a parse result.
pub open spec fn parsed_view(r: Result<Operation, ArgsError>) -> Result<OperationModel, ArgsError> {
    match r {
        Ok(op) => Ok(op@),
        Err(e) => Err(e),
    }
}

/// The configuration file under a configuration home.
pub open spec fn config_path_spec(config: Option<Seq<char>>, config_home: Option<Seq<char>>) -> Result<Seq<char>, CliError> {
    match config {
        Some(c) => Ok(c),
        None => match config_home {
            Some(h) => Ok(join_spec(join_spec(h, "repo"@), "config.json"@)),
            None => Err(CliError::NoConfigHome),
        },
    }
}

/// The configuration path: the one named, else the file under the
/// configuration home.
pub fn get_config_path(config: Option<String>, config_home: Option<String>) -> (r: Result<String, CliError>)
    ensures
        match (r, config_path_spec(crate::assoc::opt_text(config), crate::assoc::opt_text(config_home))) {
            (Ok(p), Ok(q)) => p@ == q,
            (Err(e), Err(f)) => e == f,
            _ => false,
        },
{
    if let Some(v) = config {
        return Ok(v);
    }
    match config_home {
        None => Err(CliError::NoConfigHome),
        Some(h) => {
            proof {
                reveal_strlit("repo");
                reveal_strlit("config.json");
                assert(!"repo"@.contains('/'));
                assert(!"config.json"@.contains('/'));
            }
            let dir = join_path(h.as_str(), "repo");
            Ok(join_path(dir.as_str(), "config.json"))
        },
    }
}

impl Operation {
    /// The operation that the words of a command line name.
    pub fn try_from(value: Vec<String>) -> (r: Result<Operation, ArgsError>)
        ensures
            parsed_view(r) == parse_spec(crate::assoc::strings_of(value@)),
    {
        let ghost words = crate::assoc::strings_of(value@);
        let mut value = value;
        if value.len() == 0 {
            return Err(ArgsError::NoArguments);
        }
        assert(words[0] == value@[0]@);
        let n = value.len();
        let kind = {
            let term = &value[0];
            if *term == "open".to_owned() || *term == "o".to_owned() {
                OperationKind::Open
            } else if *term == "list".to_owned() || *term == "l".to_owned() {
                OperationKind::List
            } else if *term == "status".to_owned() || *term == "s".to_owned() {
                OperationKind::Status
            } else if *term == "push".to_owned() {
                OperationKind::Push
            } else {
                return Err(ArgsError::Unknown);
            }
        };
        let wanted: usize = match kind {
            OperationKind::List => 1,
            _ => 2,
        };
        if n != wanted {
            return Err(ArgsError::WrongCount { operation: kind, given: n - 1 });
        }
        if let OperationKind::List = kind {
            return Ok(Operation::List);
        }
        assert(words.last() == value@.last()@);
        let target = value.pop().unwrap();
        match kind {
            OperationKind::Open => Ok(Operation::Open(target)),
            OperationKind::Status => Ok(Operation::Status(target)),
            _ => Ok(Operation::Push(target)),
        }
    }
}

/// A command line ready to run: the configuration path and the operation.
#[derive(Debug)]
pub struct Cli {
    pub config: String,
    pub operation: Operation,
}

impl Cli {
    /// Reads the options, with `config_home` standing for the configuration
    /// home of the environment.
    pub fn try_from(value: CommandLineOptions, config_home: Option<String>) -> (r: Result<Cli, CliError>)
        ensures
            config_path_spec(crate::assoc::opt_text(value.config), crate::assoc::opt_text(config_home)) is Err
                ==> r == Err::<Cli, CliError>(CliError::NoConfigHome),
            config_path_spec(crate::assoc::opt_text(value.config), crate::assoc::opt_text(config_home)) is Ok
                ==> match parse_spec(crate::assoc::strings_of(value.args@)) {
                Err(e) => r == Err::<Cli, CliError>(CliError::Args(e)),
                Ok(op) => r is Ok && r.unwrap().operation@ == op
                    && r.unwrap().config@ == config_path_spec(crate::assoc::opt_text(value.config), crate::assoc::opt_text(config_home)).unwrap(),
            },
    {
        let config = match get_config_path(value.config, config_home) {
            Ok(c) => c,
            Err(e) => return Err(e),
        };
        match Operation::try_from(value.args) {
            Ok(operation) => Ok(Cli { config, operation }),
            Err(e) => Err(CliError::Args(e)),
        }
    }
}

} // verus!
