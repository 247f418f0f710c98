//! The command line, and what is asked of the user before the export.

use crate::text::{law_line_end_is_dropped, same_text, trim, trimmed};
use vstd::prelude::*;

verus! {

/// The text that `--help` shows.
pub const USAGE: &'static str = "Usage: export_findmy [OPTIONS]\n\nOptions:\n  --apple-id <email>       Apple ID email\n  --anisette-url <url>     Anisette server URL (default: https://ani.sidestore.io)\n  --output-dir <dir>       Output directory for plist files (default: .)\n  --cleanup-fake-bottles   Delete escrow bottles created by this tool's fake device\n  --yes, -y                Do not prompt before cleanup deletion\n\nWARNING: Output plist files contain private key material.";

/// The anisette server that is asked where no other is given.
pub const DEFAULT_ANISETTE_URL: &'static str = "https://ani.sidestore.io";

/// The options of a run.
pub struct Options {
    pub apple_id: String,
    pub anisette_url: String,
    pub output_dir: String,
    pub cleanup_fake_bottles: bool,
    pub assume_yes: bool,
}

/// The view of [`Options`].
pub struct OptionsModel {
    pub apple_id: Seq<char>,
    pub anisette_url: Seq<char>,
    pub output_dir: Seq<char>,
    pub cleanup_fake_bottles: bool,
    pub assume_yes: bool,
}

impl View for Options {
    type V = OptionsModel;

    open spec fn view(&self) -> OptionsModel {
        OptionsModel {
            apple_id: self.apple_id@,
            anisette_url: self.anisette_url@,
            output_dir: self.output_dir@,
            cleanup_fake_bottles: self.cleanup_fake_bottles,
            assume_yes: self.assume_yes,
        }
    }
}

/// The options of a run without arguments.
pub open spec fn default_options() -> OptionsModel {
    OptionsModel {
        apple_id: Seq::empty(),
        anisette_url: DEFAULT_ANISETTE_URL@,
        output_dir: "."@,
        cleanup_fake_bottles: false,
        assume_yes: false,
    }
}

impl Default for Options {
    fn default() -> (out: Self)
        ensures
            out@ == default_options(),
            out.apple_id@.len() == 0,
            out.anisette_url@ == "https://ani.sidestore.io"@,
            out.output_dir@ == "."@,
            !out.cleanup_fake_bottles,
            !out.assume_yes,
    {
        Options {
            apple_id: String::new(),
            anisette_url: DEFAULT_ANISETTE_URL.to_owned(),
            output_dir: ".".to_owned(),
            cleanup_fake_bottles: false,
            assume_yes: false,
        }
    }
}

/// What the arguments ask for.
pub enum CommandLine {
    /// A run with these options.
    Run(Options),
    /// The usage text.
    Help,
    /// Nothing: this argument is not known.
    UnknownArgument(String),
    /// Nothing: no value follows this argument, which takes one.
    MissingValue(String),
}

/// The view of a [`CommandLine`].
pub enum CommandLineModel {
    Run(OptionsModel),
    Help,
    UnknownArgument(Seq<char>),
    MissingValue(Seq<char>),
}

impl View for CommandLine {
    type V = CommandLineModel;

    open spec fn view(&self) -> CommandLineModel {
        match *self {
            CommandLine::Run(options) => CommandLineModel::Run(options@),
            CommandLine::Help => CommandLineModel::Help,
            CommandLine::UnknownArgument(arg) => CommandLineModel::UnknownArgument(arg@),
            CommandLine::MissingValue(arg) => CommandLineModel::MissingValue(arg@),
        }
    }
}

/// Whether a value follows the argument `arg`.
pub open spec fn takes_value(arg: Seq<char>) -> bool {
    arg == "--apple-id"@ || arg == "--anisette-url"@ || arg == "--output-dir"@
}

/// The options once the argument `arg` was given the value `value`.
pub open spec fn with_value(options: OptionsModel, arg: Seq<char>, value: Seq<char>) -> OptionsModel
    recommends
        takes_value(arg),
{
    if arg == "--apple-id"@ {
        OptionsModel { apple_id: value, ..options }
    } else if arg == "--anisette-url"@ {
        OptionsModel { anisette_url: value, ..options }
    } else {
        OptionsModel { output_dir: value, ..options }
    }
}

/// What the arguments `args` ask for where the options are `options` before
/// them. The first argument that is not an option of a run decides: those
/// behind it are not looked at.
pub open spec fn parsed(args: Seq<Seq<char>>, options: OptionsModel) -> CommandLineModel
    decreases args.len(),
{
    if args.len() == 0 {
        CommandLineModel::Run(options)
    } else {
        let arg = args[0];
        if takes_value(arg) {
            if args.len() == 1 {
                CommandLineModel::MissingValue(arg)
            } else {
                parsed(args.skip(2), with_value(options, arg, args[1]))
            }
        } else if arg == "--cleanup-fake-bottles"@ {
            parsed(args.skip(1), OptionsModel { cleanup_fake_bottles: true, ..options })
        } else if arg == "--yes"@ || arg == "-y"@ {
            parsed(args.skip(1), OptionsModel { assume_yes: true, ..options })
        } else if arg == "--help"@ || arg == "-h"@ {
            CommandLineModel::Help
        } else {
            CommandLineModel::UnknownArgument(arg)
        }
    }
}

/// The views of a list of arguments.
pub open spec fn texts_of(args: Seq<String>) -> Seq<Seq<char>> {
    Seq::new(args.len(), |i: int| args[i]@)
}

/// What the command line `args` asks for; its first entry is the name of the
/// program.
pub open spec fn command_of(args: Seq<Seq<char>>) -> CommandLineModel {
    if args.len() == 0 {
        CommandLineModel::Run(default_options())
    } else {
        parsed(args.skip(1), default_options())
    }
}

/// Reads the command line `args`, whose first entry is the name of the program.
pub fn parse_args(args: &Vec<String>) -> (command: CommandLine)
    ensures
        command@ == command_of(texts_of(args@)),
{
    let ghost all = texts_of(args@);
    let mut options = Options::default();
    let mut i: usize = 1;
    if args.len() == 0 {
        return CommandLine::Run(options);
    }
    while i < args.len()
        invariant
            1 <= i <= args@.len(),
            all == texts_of(args@),
            command_of(all) == parsed(all.skip(i as int), options@),
        decreases args@.len() - i,
    {
        let arg = args[i].as_str();
        proof {
            assert(all.skip(i as int)[0] == arg@);
            assert(all.skip(i as int).skip(1) =~= all.skip(i + 1));
            if i + 1 < args@.len() {
                assert(all.skip(i as int)[1] == args@[i + 1]@);
                assert(all.skip(i as int).skip(2) =~= all.skip(i + 2));
            }
        }
        let apple_id = same_text(arg, "--apple-id");
        let anisette_url = same_text(arg, "--anisette-url");
        let output_dir = same_text(arg, "--output-dir");
        if apple_id || anisette_url || output_dir {
            if i + 1 == args.len() {
                return CommandLine::MissingValue(args[i].clone());
            }
            i = i + 1;
            let value = args[i].clone();
            if apple_id {
                options.apple_id = value;
            } else if anisette_url {
                options.anisette_url = value;
            } else {
                options.output_dir = value;
            }
        } else if same_text(arg, "--cleanup-fake-bottles") {
            options.cleanup_fake_bottles = true;
        } else if same_text(arg, "--yes") || same_text(arg, "-y") {
            options.assume_yes = true;
        } else if same_text(arg, "--help") || same_text(arg, "-h") {
            return CommandLine::Help;
        } else {
            return CommandLine::UnknownArgument(args[i].clone());
        }
        i = i + 1;
    }
    proof {
        assert(all.skip(i as int).len() == 0);
    }
    CommandLine::Run(options)
}

/// The Apple ID of a run: the one that was given, else the one on the line that
/// the user typed.
pub open spec fn apple_id_of(given: Seq<char>, line: Seq<char>) -> Seq<char> {
    if given.len() == 0 {
        trimmed(line)
    } else {
        given
    }
}

/// The Apple ID of a run, which was given as an option or stands on the line
/// that the user typed.
pub fn resolve_apple_id(given: String, line: &str) -> (apple_id: String)
    ensures
        apple_id@ == apple_id_of(given@, line@),
        given@.len() > 0 ==> apple_id@ == given@,
        given@.len() == 0 ==> apple_id@ == trimmed(line@),
{
    if given.as_str().is_empty() {
        trim(line)
    } else {
        given
    }
}

/// The log filters: those of the environment, else those that show information.
pub fn log_filters(from_environment: Option<String>) -> (filters: String)
    ensures
        match from_environment {
            Some(f) => filters@ == f@,
            None => filters@ == "info"@,
        },
{
    match from_environment {
        Some(filters) => filters,
        None => "info".to_owned(),
    }
}

/// The arguments before others are read first, and as if they stood alone:
/// where they ask for a run, the others are read on from its options; where
/// they ask for help or hold an unknown argument, the others are not looked at.
pub proof fn law_arguments_in_turn(
    first: Seq<Seq<char>>,
    others: Seq<Seq<char>>,
    options: OptionsModel,
)
    requires
        !(parsed(first, options) is MissingValue),
    ensures
        parsed(first + others, options) == match parsed(first, options) {
            CommandLineModel::Run(o) => parsed(others, o),
            stopped => stopped,
        },
    decreases first.len(),
{
    let all = first + others;
    if first.len() == 0 {
        assert(all =~= others);
    } else {
        assert(all[0] == first[0]);
        let arg = first[0];
        if takes_value(arg) {
            assert(all[1] == first[1]);
            assert(all.skip(2) =~= first.skip(2) + others);
            law_arguments_in_turn(first.skip(2), others, with_value(options, arg, first[1]));
        } else {
            assert(all.skip(1) =~= first.skip(1) + others);
            if arg == "--cleanup-fake-bottles"@ {
                law_arguments_in_turn(
                    first.skip(1),
                    others,
                    OptionsModel { cleanup_fake_bottles: true, ..options },
                );
            } else if arg == "--yes"@ || arg == "-y"@ {
                law_arguments_in_turn(
                    first.skip(1),
                    others,
                    OptionsModel { assume_yes: true, ..options },
                );
            }
        }
    }
}

/// An option that takes a value has the value that it was given last.
pub proof fn law_last_value_wins(
    first: Seq<Seq<char>>,
    arg: Seq<char>,
    value: Seq<char>,
    options: OptionsModel,
)
    requires
        takes_value(arg),
        parsed(first, options) is Run,
    ensures
        parsed(first + seq![arg, value], options) == CommandLineModel::Run(
            with_value(parsed(first, options)->Run_0, arg, value),
        ),
{
    let others = seq![arg, value];
    law_arguments_in_turn(first, others, options);
    assert(others.skip(2).len() == 0);
    assert(parsed(others.skip(2), with_value(parsed(first, options)->Run_0, arg, value))
        == CommandLineModel::Run(with_value(parsed(first, options)->Run_0, arg, value)));
}

/// The arguments are different texts.
proof fn lemma_arguments_differ()
    ensures
        "--apple-id"@.len() == 10 && "--apple-id"@[2] == 'a',
        "--anisette-url"@.len() == 14,
        "--output-dir"@.len() == 12,
        "--cleanup-fake-bottles"@.len() == 22,
        "--yes"@.len() == 5,
        "-y"@.len() == 2 && "-y"@[1] == 'y',
        "--help"@.len() == 6,
        "-h"@.len() == 2 && "-h"@[1] == 'h',
{
    reveal_strlit("--apple-id");
    reveal_strlit("--anisette-url");
    reveal_strlit("--output-dir");
    reveal_strlit("--cleanup-fake-bottles");
    reveal_strlit("--yes");
    reveal_strlit("-y");
    reveal_strlit("--help");
    reveal_strlit("-h");
}

/// A further argument is read on from what the arguments before it asked for.
proof fn lemma_one_more(first: Seq<Seq<char>>, arg: Seq<char>, options: OptionsModel)
    requires
        parsed(first, options) is Run,
    ensures
        parsed(first.push(arg), options) == parsed(seq![arg], parsed(first, options)->Run_0),
        seq![arg].skip(1) == Seq::<Seq<char>>::empty(),
{
    law_arguments_in_turn(first, seq![arg], options);
    assert(first + seq![arg] =~= first.push(arg));
}

/// No arguments leave the options as they are.
pub proof fn law_no_arguments(options: OptionsModel)
    ensures
        parsed(Seq::empty(), options) == CommandLineModel::Run(options),
{
}

/// `--cleanup-fake-bottles` behind arguments that ask for a run asks for the
/// clean-up, and leaves every other option as it was: above all, it does not
/// keep the user from being asked.
pub proof fn law_cleanup_argument(first: Seq<Seq<char>>, options: OptionsModel, run: OptionsModel)
    requires
        parsed(first, options) == CommandLineModel::Run(run),
    ensures
        parsed(first.push("--cleanup-fake-bottles"@), options) matches CommandLineModel::Run(r) && {
            &&& r.cleanup_fake_bottles
            &&& r.assume_yes == run.assume_yes
            &&& r.apple_id == run.apple_id
            &&& r.anisette_url == run.anisette_url
            &&& r.output_dir == run.output_dir
        },
{
    lemma_arguments_differ();
    lemma_one_more(first, "--cleanup-fake-bottles"@, options);
    law_no_arguments(OptionsModel { cleanup_fake_bottles: true, ..run });
}

/// `--yes` or `-y` behind arguments that ask for a run keeps the user from being
/// asked, and leaves every other option as it was.
pub proof fn law_yes_argument(
    first: Seq<Seq<char>>,
    arg: Seq<char>,
    options: OptionsModel,
    run: OptionsModel,
)
    requires
        parsed(first, options) == CommandLineModel::Run(run),
        arg == "--yes"@ || arg == "-y"@,
    ensures
        parsed(first.push(arg), options) matches CommandLineModel::Run(r) && {
            &&& r.assume_yes
            &&& r.cleanup_fake_bottles == run.cleanup_fake_bottles
            &&& r.apple_id == run.apple_id
            &&& r.anisette_url == run.anisette_url
            &&& r.output_dir == run.output_dir
        },
{
    lemma_arguments_differ();
    lemma_one_more(first, arg, options);
    law_no_arguments(OptionsModel { assume_yes: true, ..run });
}

/// An argument that takes a value, with a value behind it, gives that value to
/// its own option, whatever the value is, and leaves every other option as it
/// was.
pub proof fn law_value_argument(
    first: Seq<Seq<char>>,
    arg: Seq<char>,
    value: Seq<char>,
    options: OptionsModel,
    run: OptionsModel,
)
    requires
        parsed(first, options) == CommandLineModel::Run(run),
        arg == "--apple-id"@ || arg == "--anisette-url"@ || arg == "--output-dir"@,
    ensures
        parsed(first.push(arg).push(value), options) matches CommandLineModel::Run(r) && {
            &&& r.apple_id == (if arg == "--apple-id"@ {
                value
            } else {
                run.apple_id
            })
            &&& r.anisette_url == (if arg == "--anisette-url"@ {
                value
            } else {
                run.anisette_url
            })
            &&& r.output_dir == (if arg == "--output-dir"@ {
                value
            } else {
                run.output_dir
            })
            &&& r.cleanup_fake_bottles == run.cleanup_fake_bottles
            &&& r.assume_yes == run.assume_yes
        },
{
    lemma_arguments_differ();
    law_last_value_wins(first, arg, value, options);
    assert(first + seq![arg, value] =~= first.push(arg).push(value));
}

/// An argument that takes a value, with nothing behind it, is named as such.
pub proof fn law_value_is_missed(
    first: Seq<Seq<char>>,
    arg: Seq<char>,
    options: OptionsModel,
    run: OptionsModel,
)
    requires
        parsed(first, options) == CommandLineModel::Run(run),
        arg == "--apple-id"@ || arg == "--anisette-url"@ || arg == "--output-dir"@,
    ensures
        parsed(first.push(arg), options) == CommandLineModel::MissingValue(arg),
{
    lemma_one_more(first, arg, options);
}

/// `--help` or `-h` asks for help, whatever stands behind it.
pub proof fn law_help_argument(
    first: Seq<Seq<char>>,
    arg: Seq<char>,
    others: Seq<Seq<char>>,
    options: OptionsModel,
    run: OptionsModel,
)
    requires
        parsed(first, options) == CommandLineModel::Run(run),
        arg == "--help"@ || arg == "-h"@,
    ensures
        parsed(first.push(arg) + others, options) == CommandLineModel::Help,
{
    lemma_arguments_differ();
    lemma_one_more(first, arg, options);
    law_arguments_in_turn(first.push(arg), others, options);
}

/// An argument that is none of those known is refused by its name, whatever
/// stands behind it.
pub proof fn law_unknown_argument(
    first: Seq<Seq<char>>,
    arg: Seq<char>,
    others: Seq<Seq<char>>,
    options: OptionsModel,
    run: OptionsModel,
)
    requires
        parsed(first, options) == CommandLineModel::Run(run),
        arg != "--apple-id"@,
        arg != "--anisette-url"@,
        arg != "--output-dir"@,
        arg != "--cleanup-fake-bottles"@,
        arg != "--yes"@,
        arg != "-y"@,
        arg != "--help"@,
        arg != "-h"@,
    ensures
        parsed(first.push(arg) + others, options) == CommandLineModel::UnknownArgument(arg),
{
    lemma_one_more(first, arg, options);
    law_arguments_in_turn(first.push(arg), others, options);
}

/// The user is kept from being asked only where that was so before, or where
/// `--yes` or `-y` is read as an option, and not as the value of one; and the
/// clean-up is asked for only where that was so before, or where
/// `--cleanup-fake-bottles` is read as an option.
pub proof fn law_switches_need_their_arguments(
    args: Seq<Seq<char>>,
    options: OptionsModel,
    run: OptionsModel,
)
    requires
        parsed(args, options) == CommandLineModel::Run(run),
    ensures
        run.assume_yes ==> options.assume_yes || exists|i: int|
            {
                &&& 0 <= i < args.len()
                &&& (#[trigger] args[i] == "--yes"@ || args[i] == "-y"@)
                &&& parsed(args.take(i), options) is Run
            },
        run.cleanup_fake_bottles ==> options.cleanup_fake_bottles || exists|i: int|
            {
                &&& 0 <= i < args.len()
                &&& #[trigger] args[i] == "--cleanup-fake-bottles"@
                &&& parsed(args.take(i), options) is Run
            },
    decreases args.len(),
{
    if args.len() > 0 {
        let arg = args[0];
        assert(args.take(0) =~= Seq::<Seq<char>>::empty());
        let (next, n) = if takes_value(arg) {
            (with_value(options, arg, args[1]), 2int)
        } else if arg == "--cleanup-fake-bottles"@ {
            (OptionsModel { cleanup_fake_bottles: true, ..options }, 1int)
        } else {
            (OptionsModel { assume_yes: true, ..options }, 1int)
        };
        let rest = args.skip(n);
        law_switches_need_their_arguments(rest, next, run);
        assert forall|i: int| 0 <= i < rest.len() implies parsed(
            #[trigger] args.take(i + n),
            options,
        ) == parsed(rest.take(i), next) && args[i + n] == rest[i] by {
            assert(args.take(i + n)[0] == arg);
            assert(args.take(i + n).skip(n) =~= rest.take(i));
            if n == 2 {
                assert(args.take(i + n)[1] == args[1]);
            }
        }
        if run.assume_yes && !next.assume_yes {
            let i = choose|i: int|
                {
                    &&& 0 <= i < rest.len()
                    &&& (#[trigger] rest[i] == "--yes"@ || rest[i] == "-y"@)
                    &&& parsed(rest.take(i), next) is Run
                };
            assert(parsed(args.take(i + n), options) is Run);
            assert(args[i + n] == rest[i]);
        }
        if run.cleanup_fake_bottles && !next.cleanup_fake_bottles {
            let i = choose|i: int|
                {
                    &&& 0 <= i < rest.len()
                    &&& #[trigger] rest[i] == "--cleanup-fake-bottles"@
                    &&& parsed(rest.take(i), next) is Run
                };
            assert(parsed(args.take(i + n), options) is Run);
            assert(args[i + n] == rest[i]);
        }
    }
}

/// The first entry of the command line is passed over, and the others are read
/// as they are, from these options on: no Apple ID, the server
/// `https://ani.sidestore.io`, the current directory, no clean-up, and the user
/// asked before anything is deleted.
pub proof fn law_command_line(args: Seq<String>, rest: Seq<Seq<char>>, options: OptionsModel)
    requires
        rest.len() == if args.len() == 0 {
            0
        } else {
            args.len() - 1
        },
        forall|i: int| 0 <= i < rest.len() ==> (#[trigger] rest[i]) == args[i + 1]@,
        options.apple_id.len() == 0,
        options.anisette_url == "https://ani.sidestore.io"@,
        options.output_dir == "."@,
        !options.cleanup_fake_bottles,
        !options.assume_yes,
    ensures
        command_of(texts_of(args)) == parsed(rest, options),
{
    if args.len() > 0 {
        assert(texts_of(args).skip(1) =~= rest);
    }
    assert(options.apple_id =~= Seq::<char>::empty());
}

/// The views of options and of a command line have each part as it is.
pub proof fn law_command_view(options: Options, arg: String)
    ensures
        options@.apple_id == options.apple_id@,
        options@.anisette_url == options.anisette_url@,
        options@.output_dir == options.output_dir@,
        options@.cleanup_fake_bottles == options.cleanup_fake_bottles,
        options@.assume_yes == options.assume_yes,
        CommandLine::Run(options)@ == CommandLineModel::Run(options@),
        CommandLine::Help@ == CommandLineModel::Help,
        CommandLine::UnknownArgument(arg)@ == CommandLineModel::UnknownArgument(arg@),
        CommandLine::MissingValue(arg)@ == CommandLineModel::MissingValue(arg@),
{
}

/// An Apple ID that was given is used as it is, whatever was typed. Where none
/// was given, the one on the typed line is, without the white space round it:
/// the line break that ends the line makes no difference.
pub proof fn law_apple_id(given: Seq<char>, line: Seq<char>)
    ensures
        given.len() > 0 ==> apple_id_of(given, line) == given,
        given.len() == 0 ==> {
            &&& apple_id_of(given, line) == trimmed(line)
            &&& apple_id_of(given, line.push('\n')) == apple_id_of(given, line)
        },
{
    law_line_end_is_dropped(line, '\n');
}

} // verus!
