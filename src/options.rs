use vstd::prelude::*;

verus! {

/// Options of the patch command.
#[derive(Clone, Copy, Debug, Default, PartialEq, Eq, Structural)]
pub struct Options {
    /// List patches instead of proposing one.
    pub list: bool,
    pub verbose: bool,
    /// Publish the branch to a seed once the patch is stored.
    pub sync: bool,
}

/// One command-line argument, as a lexer splits it.
#[derive(Clone, Debug)]
pub enum ArgToken {
    /// `--name`
    Long(String),
    /// `-c`
    Short(char),
    /// Anything else.
    Value(String),
}

/// Why the arguments give no options.
#[derive(Clone, Copy, Debug, PartialEq, Eq, Structural)]
pub enum ArgsError {
    /// Help was asked for.
    Help,
    /// The argument at this position is not an option of the command.
    Unexpected(usize),
}

pub open spec fn default_options() -> Options {
    Options { list: false, verbose: false, sync: true }
}

/// The options `o` after argument `a`, at position `i`.
pub open spec fn apply_arg(o: Options, a: ArgToken, i: int) -> Result<Options, ArgsError> {
    match a {
        ArgToken::Long(n) => if n@ == "list"@ {
            Ok(Options { list: true, ..o })
        } else if n@ == "verbose"@ {
            Ok(Options { verbose: true, ..o })
        } else if n@ == "sync"@ {
            Ok(Options { sync: true, ..o })
        } else if n@ == "no-sync"@ {
            Ok(Options { sync: false, ..o })
        } else if n@ == "help"@ {
            Err(ArgsError::Help)
        } else {
            Err(ArgsError::Unexpected(i as usize))
        },
        ArgToken::Short(c) => if c == 'l' {
            Ok(Options { list: true, ..o })
        } else if c == 'v' {
            Ok(Options { verbose: true, ..o })
        } else {
            Err(ArgsError::Unexpected(i as usize))
        },
        ArgToken::Value(_) => Err(ArgsError::Unexpected(i as usize)),
    }
}

/// The options that `args` give, read from the left; the first argument
/// that is not an option stops the reading.
pub open spec fn options_of(args: Seq<ArgToken>) -> Result<Options, ArgsError>
    decreases args.len(),
{
    if args.len() == 0 {
        Ok(default_options())
    } else {
        match options_of(args.drop_last()) {
            Ok(o) => apply_arg(o, args.last(), args.len() - 1),
            Err(e) => Err(e),
        }
    }
}

fn is_word(n: &String, w: &str) -> (r: bool)
    ensures
        r == (n@ == w@),
{
    let owned = w.to_owned();
    *n == owned
}

impl Options {
    /// Reads the options from the command's arguments.
    pub fn from_args(args: &Vec<ArgToken>) -> (r: Result<Options, ArgsError>)
        ensures
            r == options_of(args@),
    {
        let mut o = Options { list: false, verbose: false, sync: true };
        let mut i: usize = 0;
        while i < args.len()
            invariant
                i <= args@.len(),
                options_of(args@.subrange(0, i as int)) == Ok::<Options, ArgsError>(o),
            decreases args@.len() - i,
        {
            proof {
                assert(args@.subrange(0, i as int + 1).drop_last() =~= args@.subrange(0, i as int));
            }
            match &args[i] {
                ArgToken::Long(n) => {
                    if is_word(n, "list") {
                        o.list = true;
                    } else if is_word(n, "verbose") {
                        o.verbose = true;
                    } else if is_word(n, "sync") {
                        o.sync = true;
                    } else if is_word(n, "no-sync") {
                        o.sync = false;
                    } else if is_word(n, "help") {
                        proof {
                            lemma_error_stays(args@, i as int + 1);
                        }
                        return Err(ArgsError::Help);
                    } else {
                        proof {
                            lemma_error_stays(args@, i as int + 1);
                        }
                        return Err(ArgsError::Unexpected(i));
                    }
                },
                ArgToken::Short(c) => {
                    if *c == 'l' {
                        o.list = true;
                    } else if *c == 'v' {
                        o.verbose = true;
                    } else {
                        proof {
                            lemma_error_stays(args@, i as int + 1);
                        }
                        return Err(ArgsError::Unexpected(i));
                    }
                },
                ArgToken::Value(_) => {
                    proof {
                        lemma_error_stays(args@, i as int + 1);
                    }
                    return Err(ArgsError::Unexpected(i));
                },
            }
            i = i + 1;
        }
        assert(args@.subrange(0, args@.len() as int) =~= args@);
        Ok(o)
    }
}

/// Once the arguments read so far give an error, the whole list gives it.
proof fn lemma_error_stays(args: Seq<ArgToken>, k: int)
    requires
        0 <= k <= args.len(),
        options_of(args.subrange(0, k)) is Err,
    ensures
        options_of(args) == options_of(args.subrange(0, k)),
    decreases args.len() - k,
{
    if k < args.len() {
        assert(args.subrange(0, k + 1).drop_last() =~= args.subrange(0, k));
        lemma_error_stays(args, k + 1);
    } else {
        assert(args.subrange(0, k) =~= args);
    }
}

} // verus!
