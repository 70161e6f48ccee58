//! Parsing of command-line arguments into compiler options.
//!
//! The argument vector is handed in as plain strings; collecting them
//! from the environment is the caller's business.

use vstd::prelude::*;
use vstd::string::{StrSliceExecFns, StringExecFns};

use crate::text::str_eq;

verus! {

/// Options selected on the command line.
#[derive(Debug, Clone)]
pub struct CliOptions {
    pub source_file: String,
    pub emit_bytecode: bool,
    pub no_run: bool,
    pub bundle: bool,
    pub out_dir: String,
    pub debug: bool,
}

/// The model of a set of options.
#[verifier::ext_equal]
pub ghost struct CliOptionsView {
    pub source_file: Seq<char>,
    pub emit_bytecode: bool,
    pub no_run: bool,
    pub bundle: bool,
    pub out_dir: Seq<char>,
    pub debug: bool,
}

impl View for CliOptions {
    type V = CliOptionsView;

    open spec fn view(&self) -> CliOptionsView {
        CliOptionsView {
            source_file: self.source_file@,
            emit_bytecode: self.emit_bytecode,
            no_run: self.no_run,
            bundle: self.bundle,
            out_dir: self.out_dir@,
            debug: self.debug,
        }
    }
}

/// The options before any argument is read: no source file, nothing
/// switched on, the default output directory.
pub open spec fn spec_default_options() -> CliOptionsView {
    CliOptionsView {
        source_file: Seq::empty(),
        emit_bytecode: false,
        no_run: false,
        bundle: false,
        out_dir: "target/artificial_out"@,
        debug: false,
    }
}

impl Default for CliOptions {
    /// The options before any argument is read.
    fn default() -> (r: Self)
        ensures
            r@ == spec_default_options(),
    {
        CliOptions {
            source_file: String::new(),
            emit_bytecode: false,
            no_run: false,
            bundle: false,
            out_dir: String::from_str("target/artificial_out"),
            debug: false,
        }
    }
}

/// Whether an argument is written as an option, `--` first.
pub open spec fn spec_is_option(a: Seq<char>) -> bool {
    a.len() >= 2 && a[0] == '-' && a[1] == '-'
}

/// The arguments from position `i` on, folded over the options
/// gathered so far; the error is the message reported.
pub open spec fn spec_parse_args(args: Seq<Seq<char>>, i: int, acc: CliOptionsView) -> Result<
    CliOptionsView,
    Seq<char>,
>
    decreases args.len() - i,
{
    if i >= args.len() {
        if acc.source_file.len() == 0 {
            Err("no source file specified"@)
        } else {
            Ok(acc)
        }
    } else {
        let a = args[i];
        if a == "--emit-bytecode"@ {
            spec_parse_args(args, i + 1, CliOptionsView { emit_bytecode: true, ..acc })
        } else if a == "--no-run"@ {
            spec_parse_args(args, i + 1, CliOptionsView { no_run: true, ..acc })
        } else if a == "--bundle"@ {
            spec_parse_args(args, i + 1, CliOptionsView { bundle: true, ..acc })
        } else if a == "--debug"@ {
            spec_parse_args(args, i + 1, CliOptionsView { debug: true, ..acc })
        } else if a == "--out-dir"@ {
            if i + 1 >= args.len() {
                Err("--out-dir requires an argument"@)
            } else {
                spec_parse_args(args, i + 2, CliOptionsView { out_dir: args[i + 1], ..acc })
            }
        } else if !spec_is_option(a) {
            if acc.source_file.len() == 0 {
                spec_parse_args(args, i + 1, CliOptionsView { source_file: a, ..acc })
            } else {
                Err("unexpected positional argument: "@ + a)
            }
        } else {
            Err("unknown option: "@ + a)
        }
    }
}

/// Whether the string starts with `--`.
fn starts_with_dash_dash(s: &str) -> (r: bool)
    ensures
        r == spec_is_option(s@),
{
    if s.unicode_len() < 2 {
        return false;
    }
    s.get_char(0) == '-' && s.get_char(1) == '-'
}

/// Parse an argument vector, program name first, into options.
///
/// The result is exactly [`spec_parse_args`] over the arguments after
/// the program name: the last `--out-dir` wins, the first bare
/// argument names the source file, a second bare argument, an unknown
/// option or a missing source file is an error.
pub fn parse_cli_args(args: &Vec<String>) -> (r: Result<CliOptions, String>)
    ensures
        match r {
            Ok(opts) => spec_parse_args(
                args@.map_values(|a: String| a@),
                1,
                spec_default_options(),
            ) == Ok::<CliOptionsView, Seq<char>>(opts@),
            Err(e) => spec_parse_args(
                args@.map_values(|a: String| a@),
                1,
                spec_default_options(),
            ) == Err::<CliOptionsView, Seq<char>>(e@),
        },
{
    let ghost argv = args@.map_values(|a: String| a@);
    let mut opts = CliOptions::default();
    let mut i: usize = 1;
    let n = args.len();

    while i < n
        invariant
            n == args@.len(),
            argv == args@.map_values(|a: String| a@),
            1 <= i,
            spec_parse_args(argv, 1, spec_default_options()) == spec_parse_args(
                argv,
                i as int,
                opts@,
            ),
        decreases n - i,
    {
        proof {
            assert(argv[i as int] == args@[i as int]@);
        }
        let arg = &args[i];
        if str_eq(arg.as_str(), "--emit-bytecode") {
            opts.emit_bytecode = true;
            i = i + 1;
        } else if str_eq(arg.as_str(), "--no-run") {
            opts.no_run = true;
            i = i + 1;
        } else if str_eq(arg.as_str(), "--bundle") {
            opts.bundle = true;
            i = i + 1;
        } else if str_eq(arg.as_str(), "--debug") {
            opts.debug = true;
            i = i + 1;
        } else if str_eq(arg.as_str(), "--out-dir") {
            i = i + 1;
            if i >= n {
                return Err(String::from_str("--out-dir requires an argument"));
            }
            proof {
                assert(argv[i as int] == args@[i as int]@);
            }
            opts.out_dir = args[i].clone();
            i = i + 1;
        } else if !starts_with_dash_dash(arg.as_str()) {
            if opts.source_file.as_str().is_empty() {
                opts.source_file = arg.clone();
                i = i + 1;
            } else {
                let mut message = String::from_str("unexpected positional argument: ");
                message.append(arg.as_str());
                return Err(message);
            }
        } else {
            let mut message = String::from_str("unknown option: ");
            message.append(arg.as_str());
            return Err(message);
        }
    }

    if opts.source_file.as_str().is_empty() {
        return Err(String::from_str("no source file specified"));
    }

    Ok(opts)
}

} // verus!
