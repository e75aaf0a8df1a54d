//! The command line: one file name and a closed set of flags.

use vstd::prelude::*;
use vstd::string::StringExecFns;

verus! {

/// What the command line asked for.
#[derive(Debug)]
pub struct ArgsConfig {
    /// The file to open.
    pub file_name: String,
    /// Whether `--no-color` was given: draw without styled output.
    pub no_color: bool,
    /// Whether `--read-only` was given: refuse to change the file.
    pub read_only: bool,
}

/// What an `ArgsConfig` holds, as mathematical values.
pub struct ArgsConfigView {
    pub file_name: Seq<char>,
    pub no_color: bool,
    pub read_only: bool,
}

impl View for ArgsConfig {
    type V = ArgsConfigView;

    open spec fn view(&self) -> ArgsConfigView {
        ArgsConfigView {
            file_name: self.file_name@,
            no_color: self.no_color,
            read_only: self.read_only,
        }
    }
}

/// What a slice of arguments holds: each argument as a sequence of
/// characters.
pub open spec fn args_view(args: Seq<String>) -> Seq<Seq<char>> {
    Seq::new(args.len(), |i: int| args[i]@)
}

/// Whether `arg` is written like an option: it begins with a dash.
pub open spec fn is_option(arg: Seq<char>) -> bool {
    arg.len() > 0 && arg[0] == '-'
}

/// Whether `arg` is one of the two flags.
pub open spec fn is_flag(arg: Seq<char>) -> bool {
    arg == "--no-color"@ || arg == "--read-only"@
}

/// Whether `arg` names a file: it is not empty and no option.
pub open spec fn is_file_name(arg: Seq<char>) -> bool {
    arg.len() > 0 && !is_option(arg)
}

/// The message for an option that is no flag.
pub open spec fn unknown_argument_text(arg: Seq<char>) -> Seq<char> {
    "Unknown argument: '"@ + arg + "'"@
}

/// The message for a second file name.
pub open spec fn multiple_filenames_text(arg: Seq<char>) -> Seq<char> {
    "Multiple filenames specified: '"@ + arg + "'"@
}

/// The message for a command line without a file name.
pub open spec fn no_filename_text() -> Seq<char> {
    "No filename was passed as argument"@
}

/// The configuration before any argument is read.
pub open spec fn empty_config() -> ArgsConfigView {
    ArgsConfigView { file_name: Seq::empty(), no_color: false, read_only: false }
}

/// What one more argument makes of the configuration read so far. An empty
/// argument changes nothing.
pub open spec fn read_arg(config: ArgsConfigView, arg: Seq<char>) -> Result<ArgsConfigView, Seq<char>> {
    if arg == "--no-color"@ {
        Ok(ArgsConfigView { no_color: true, ..config })
    } else if arg == "--read-only"@ {
        Ok(ArgsConfigView { read_only: true, ..config })
    } else if is_option(arg) {
        Err(unknown_argument_text(arg))
    } else if config.file_name.len() == 0 {
        Ok(ArgsConfigView { file_name: arg, ..config })
    } else {
        Err(multiple_filenames_text(arg))
    }
}

/// What the arguments with index 1 up to `end`, read left to right, make of
/// the empty configuration. The first argument that is refused decides the
/// message. The argument with index 0 names the program and is not read.
pub open spec fn read_args(args: Seq<Seq<char>>, end: int) -> Result<ArgsConfigView, Seq<char>>
    decreases end,
{
    if end <= 1 {
        Ok(empty_config())
    } else {
        match read_args(args, end - 1) {
            Ok(config) => read_arg(config, args[end - 1]),
            Err(message) => Err(message),
        }
    }
}

/// What a whole command line asks for, or the message that it is refused
/// with.
pub open spec fn parse_args(args: Seq<Seq<char>>) -> Result<ArgsConfigView, Seq<char>> {
    match read_args(args, args.len() as int) {
        Ok(config) => if config.file_name.len() == 0 {
            Err(no_filename_text())
        } else {
            Ok(config)
        },
        Err(message) => Err(message),
    }
}

/// The view of a parse result.
pub open spec fn result_view(result: Result<ArgsConfig, String>) -> Result<ArgsConfigView, Seq<char>> {
    match result {
        Ok(config) => Ok(config@),
        Err(message) => Err(message@),
    }
}

/// A message, once decided, stays: arguments behind the one that was
/// refused are not read.
pub proof fn lemma_first_refusal_decides(args: Seq<Seq<char>>, at: int, end: int)
    requires
        at <= end,
        read_args(args, at) is Err,
    ensures
        read_args(args, end) == read_args(args, at),
    decreases end - at,
{
    if at < end {
        lemma_first_refusal_decides(args, at, end - 1);
    }
}

/// Whether every option among the arguments with index 1 up to `end` is a
/// flag.
pub open spec fn only_known_options(args: Seq<Seq<char>>, end: int) -> bool {
    forall|i: int| 1 <= i < end ==> !is_option(#[trigger] args[i]) || is_flag(args[i])
}

/// Whether the argument with index `at` names a file and is the only one
/// with index 1 up to `end` to stand for one: in front of it every argument
/// is an option or empty, and behind it every argument is an option.
pub open spec fn sole_file_name(args: Seq<Seq<char>>, end: int, at: int) -> bool {
    &&& 1 <= at < end
    &&& is_file_name(args[at])
    &&& forall|j: int| 1 <= j < at ==> !is_file_name(#[trigger] args[j])
    &&& forall|j: int| at < j < end ==> is_option(#[trigger] args[j])
}

/// Whether a command line is accepted: each of its options is a flag, and
/// one of its arguments is the only one to stand for a file.
pub open spec fn accepted(args: Seq<Seq<char>>) -> bool {
    &&& only_known_options(args, args.len() as int)
    &&& exists|at: int| #[trigger] sole_file_name(args, args.len() as int, at)
}

/// Whether `flag` is among the arguments with index 1 up to `end`.
pub open spec fn flag_given(args: Seq<Seq<char>>, end: int, flag: Seq<char>) -> bool {
    exists|i: int| 1 <= i < end && #[trigger] args[i] == flag
}

proof fn lemma_flags_are_options()
    ensures
        is_option("--no-color"@),
        is_option("--read-only"@),
        "--no-color"@ != "--read-only"@,
{
    reveal_strlit("--no-color");
    reveal_strlit("--read-only");
    assert("--no-color"@[2] == 'n');
    assert("--read-only"@[2] == 'r');
}

/// Whether among the arguments with index 1 up to `end` one names a file
/// and a later one is no option.
pub open spec fn two_file_names(args: Seq<Seq<char>>, end: int) -> bool {
    exists|a: int, b: int|
        #![trigger args[a], args[b]]
        1 <= a < b < end && is_file_name(args[a]) && !is_option(args[b])
}

proof fn lemma_read_args_meaning(args: Seq<Seq<char>>, end: int)
    requires
        end <= args.len(),
    ensures
        match read_args(args, end) {
            Ok(config) => {
                &&& only_known_options(args, end)
                &&& config.file_name.len() == 0 ==> forall|j: int|
                    1 <= j < end ==> !is_file_name(#[trigger] args[j])
                &&& config.file_name.len() > 0 ==> exists|at: int| #[trigger]
                    sole_file_name(args, end, at) && args[at] == config.file_name
                &&& config.no_color == flag_given(args, end, "--no-color"@)
                &&& config.read_only == flag_given(args, end, "--read-only"@)
            },
            Err(_) => !only_known_options(args, end) || two_file_names(args, end),
        },
    decreases end,
{
    lemma_flags_are_options();
    if end > 1 {
        lemma_read_args_meaning(args, end - 1);
        let arg = args[end - 1];
        match read_args(args, end - 1) {
            Ok(before) => {
                match read_arg(before, arg) {
                    Ok(config) => {
                        if is_flag(arg) {
                            if before.file_name.len() > 0 {
                                let at = choose|at: int| #[trigger]
                                    sole_file_name(args, end - 1, at) && args[at] == before.file_name;
                                assert(sole_file_name(args, end, at));
                            }
                        } else if before.file_name.len() == 0 && arg.len() > 0 {
                            assert(sole_file_name(args, end, end - 1));
                        } else if before.file_name.len() > 0 {
                            let at = choose|at: int| #[trigger]
                                sole_file_name(args, end - 1, at) && args[at] == before.file_name;
                            assert(sole_file_name(args, end, at));
                        }
                        if flag_given(args, end - 1, "--no-color"@) || arg == "--no-color"@ {
                            let i = if arg == "--no-color"@ {
                                end - 1
                            } else {
                                choose|i: int| 1 <= i < end - 1 && #[trigger] args[i] == "--no-color"@
                            };
                            assert(1 <= i < end && args[i] == "--no-color"@);
                        }
                        if flag_given(args, end - 1, "--read-only"@) || arg == "--read-only"@ {
                            let i = if arg == "--read-only"@ {
                                end - 1
                            } else {
                                choose|i: int| 1 <= i < end - 1 && #[trigger] args[i] == "--read-only"@
                            };
                            assert(1 <= i < end && args[i] == "--read-only"@);
                        }
                    },
                    Err(_) => {
                        if is_option(arg) {
                            assert(!only_known_options(args, end));
                        } else {
                            let first = choose|at: int| #[trigger]
                                sole_file_name(args, end - 1, at) && args[at] == before.file_name;
                            assert(is_file_name(args[first]) && !is_option(args[end - 1]));
                        }
                    },
                }
            },
            Err(_) => {
                if only_known_options(args, end) {
                    assert(only_known_options(args, end - 1));
                    let (a, b) = choose|a: int, b: int|
                        #![trigger args[a], args[b]]
                        1 <= a < b < end - 1 && is_file_name(args[a]) && !is_option(args[b]);
                    assert(is_file_name(args[a]) && !is_option(args[b]));
                }
            },
        }
    }
}

/// What `parse_args` decides, said without reading left to right: a command
/// line is accepted exactly if each of its options is a flag and one of its
/// arguments is the only one to stand for a file. What it asks for is then
/// that file, and each flag that occurs among the arguments.
pub proof fn lemma_parse_args_meaning(args: Seq<Seq<char>>)
    ensures
        parse_args(args) is Ok <==> accepted(args),
        parse_args(args) matches Ok(config) ==> {
            &&& exists|at: int| #[trigger]
                sole_file_name(args, args.len() as int, at) && args[at] == config.file_name
            &&& config.no_color == flag_given(args, args.len() as int, "--no-color"@)
            &&& config.read_only == flag_given(args, args.len() as int, "--read-only"@)
        },
{
    lemma_read_args_meaning(args, args.len() as int);
    match read_args(args, args.len() as int) {
        Ok(config) => {
            if config.file_name.len() == 0 {
                assert forall|at: int| !#[trigger] sole_file_name(args, args.len() as int, at) by {
                    if sole_file_name(args, args.len() as int, at) {
                        assert(!is_file_name(args[at]));
                    }
                }
            }
        },
        Err(_) => {
            if only_known_options(args, args.len() as int) {
                let (a, b) = choose|a: int, b: int|
                    #![trigger args[a], args[b]]
                    1 <= a < b < args.len() && is_file_name(args[a]) && !is_option(args[b]);
                assert forall|at: int| !#[trigger] sole_file_name(args, args.len() as int, at) by {
                    if sole_file_name(args, args.len() as int, at) {
                        if at <= a {
                            assert(is_option(args[b]));
                        } else {
                            assert(!is_file_name(args[a]));
                        }
                    }
                }
            }
        },
    }
}

fn starts_with_dash(arg: &str) -> (dash: bool)
    ensures
        dash == is_option(arg@),
{
    !arg.is_empty() && arg.get_char(0) == '-'
}

fn quoted(prefix: &str, arg: &str) -> (message: String)
    ensures
        message@ == prefix@ + arg@ + "'"@,
{
    String::from_str(prefix).concat(arg).concat("'")
}

impl ArgsConfig {
    /// Reads the command line `args`, whose first entry names the program.
    ///
    /// The command line is accepted exactly if each of its options is a flag
    /// and one of its arguments is the only one to stand for a file. It is
    /// refused with the message for the first argument that is refused, or
    /// where none is, for the missing file name.
    pub fn new(args: &[String]) -> (result: Result<ArgsConfig, String>)
        ensures
            result_view(result) == parse_args(args_view(args@)),
            result is Ok <==> accepted(args_view(args@)),
            result matches Ok(config) ==> {
                &&& exists|at: int| #[trigger]
                    sole_file_name(args_view(args@), args@.len() as int, at) && args@[at]@
                        == config.file_name@
                &&& config.no_color == flag_given(args_view(args@), args@.len() as int, "--no-color"@)
                &&& config.read_only == flag_given(
                    args_view(args@),
                    args@.len() as int,
                    "--read-only"@,
                )
            },
    {
        let no_color_flag = String::from_str("--no-color");
        let read_only_flag = String::from_str("--read-only");
        let mut config = ArgsConfig { file_name: String::new(), no_color: false, read_only: false };
        let mut idx: usize = 1;
        while idx < args.len()
            invariant
                1 <= idx,
                no_color_flag@ == "--no-color"@,
                read_only_flag@ == "--read-only"@,
                idx <= args@.len() ==> read_args(args_view(args@), idx as int) == Ok::<
                    ArgsConfigView,
                    Seq<char>,
                >(config@),
                idx > args@.len() ==> args@.len() == 0 && config@ == empty_config(),
            decreases args.len() - idx,
        {
            let arg = &args[idx];
            assert(args_view(args@)[idx as int] == arg@);
            if *arg == no_color_flag {
                config.no_color = true;
            } else if *arg == read_only_flag {
                config.read_only = true;
            } else if starts_with_dash(arg.as_str()) {
                proof {
                    lemma_first_refusal_decides(args_view(args@), idx + 1, args@.len() as int);
                    lemma_parse_args_meaning(args_view(args@));
                }
                return Err(quoted("Unknown argument: '", arg.as_str()));
            } else if config.file_name.as_str().is_empty() {
                config.file_name = arg.clone();
            } else {
                proof {
                    lemma_first_refusal_decides(args_view(args@), idx + 1, args@.len() as int);
                    lemma_parse_args_meaning(args_view(args@));
                }
                return Err(quoted("Multiple filenames specified: '", arg.as_str()));
            }
            idx += 1;
        }
        proof {
            lemma_parse_args_meaning(args_view(args@));
        }
        if config.file_name.as_str().is_empty() {
            return Err(String::from_str("No filename was passed as argument"));
        }
        Ok(config)
    }
}

} // verus!
