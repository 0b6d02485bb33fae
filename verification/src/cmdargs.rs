//! Command-line argument handling: the parser over the raw argument
//! strings and the collected result. Reading the process arguments happens
//! outside the core.

use vstd::prelude::*;
use vstd::string::StringExecFns;

verus! {

/// The collected command-line arguments.
#[derive(Debug)]
pub struct Arguments {
    pub config: Option<String>,
}

impl Default for Arguments {
    fn default() -> (r: Arguments)
        ensures
            r.config is None,
    {
        Arguments { config: None }
    }
}

/// One recognized piece of the command line.
pub enum Bits {
    Config(String),
}

/// The model of an argument list, string by string.
pub open spec fn strings_view(s: Seq<String>) -> Seq<Seq<char>> {
    s.map_values(|a: String| a@)
}

/// The error message for a config switch with no path after it.
pub open spec fn expected_config_msg(switch: Seq<char>) -> Seq<char> {
    "expected path to config file after \""@ + switch + "\""@
}

/// The error message for an unrecognized parameter.
pub open spec fn unknown_parameter_msg(arg: Seq<char>) -> Seq<char> {
    "unknown command line parameter: "@ + arg
}

/// The configuration path that an argument list selects (the last one
/// given wins), or the message of the first error in it.
pub open spec fn spec_parse(args: Seq<Seq<char>>) -> Result<Option<Seq<char>>, Seq<char>>
    decreases args.len(),
{
    if args.len() == 0 {
        Ok(None)
    } else if args[0] == "-c"@ || args[0] == "--config"@ {
        if args.len() >= 2 {
            match spec_parse(args.skip(2)) {
                Ok(None) => Ok(Some(args[1])),
                Ok(Some(path)) => Ok(Some(path)),
                Err(msg) => Err(msg),
            }
        } else {
            Err(expected_config_msg(args[0]))
        }
    } else {
        Err(unknown_parameter_msg(args[0]))
    }
}

/// Sequential parser over the raw argument strings.
pub struct Parser {
    args: Vec<String>,
    pos: usize,
}

impl Parser {
    /// The argument strings being parsed.
    pub closed spec fn args_view(&self) -> Seq<Seq<char>> {
        strings_view(self.args@)
    }

    /// How many arguments have been consumed.
    pub closed spec fn position(&self) -> int {
        self.pos as int
    }

    pub open spec fn wf(&self) -> bool {
        0 <= self.position() <= self.args_view().len()
    }

    pub fn new(args: Vec<String>) -> (p: Parser)
        ensures
            p.wf(),
            p.args_view() == strings_view(args@),
            p.position() == 0,
    {
        Parser { args, pos: 0 }
    }

    /// Consume the next recognized piece of the command line, or the
    /// message telling the user what was wrong with it.
    pub fn next(&mut self) -> (r: Option<Result<Bits, String>>)
        requires
            old(self).wf(),
        ensures
            final(self).wf(),
            final(self).args_view() == old(self).args_view(),
            match r {
                None => old(self).position() == old(self).args_view().len()
                    && final(self).position() == old(self).position(),
                Some(step) => old(self).position() < old(self).args_view().len() && {
                    let arg = old(self).args_view()[old(self).position()];
                    if arg == "-c"@ || arg == "--config"@ {
                        if old(self).position() + 1 < old(self).args_view().len() {
                            step matches Ok(Bits::Config(path)) && path@ == old(self).args_view()[
                                old(self).position() + 1
                            ] && final(self).position() == old(self).position() + 2
                        } else {
                            step matches Err(msg) && msg@ == expected_config_msg(arg)
                                && final(self).position() == old(self).args_view().len()
                        }
                    } else {
                        step matches Err(msg) && msg@ == unknown_parameter_msg(arg)
                            && final(self).position() == old(self).position() + 1
                    }
                },
            },
    {
        if self.pos >= self.args.len() {
            return None;
        }
        let ghost pos = self.position();
        let arg = self.args[self.pos].clone();
        proof {
            assert(self.args_view()[pos] == self.args@[pos]@);
        }
        let switch = arg == "-c".to_owned() || arg == "--config".to_owned();
        if switch {
            if self.pos + 1 < self.args.len() {
                let path = self.args[self.pos + 1].clone();
                proof {
                    assert(self.args_view()[pos + 1] == self.args@[pos + 1]@);
                }
                self.pos = self.pos + 2;
                Some(Ok(Bits::Config(path)))
            } else {
                let msg = "expected path to config file after \"".to_owned().concat(
                    arg.as_str(),
                ).concat("\"");
                self.pos = self.args.len();
                Some(Err(msg))
            }
        } else {
            let msg = "unknown command line parameter: ".to_owned().concat(arg.as_str());
            self.pos = self.pos + 1;
            Some(Err(msg))
        }
    }
}

/// Collect recognized pieces into the arguments record: the last
/// configuration path given wins.
impl Arguments {
    pub fn from_bits(bits: Vec<Bits>) -> (r: Arguments)
        ensures
            bits@.len() == 0 ==> r.config is None,
            bits@.len() > 0 ==> (r.config matches Some(path) && bits@.last() matches Bits::Config(
                given,
            ) && path@ == given@),
    {
        let mut args = Arguments::default();
        let n = bits.len();
        for i in 0..n
            invariant
                n == bits@.len(),
                i == 0 ==> args.config is None,
                i > 0 ==> (args.config matches Some(path) && bits@[i - 1] matches Bits::Config(
                    given,
                ) && path@ == given@),
        {
            match &bits[i] {
                Bits::Config(path) => {
                    args.config = Some(path.clone());
                },
            }
        }
        args
    }
}

/// Parse a full argument list: the selected configuration path, or the
/// message of the first error.
pub fn parse(args: Vec<String>) -> (r: Result<Arguments, String>)
    ensures
        match r {
            Ok(collected) => spec_parse(strings_view(args@)) == Ok::<
                Option<Seq<char>>,
                Seq<char>,
            >(
                match collected.config {
                    Some(path) => Some(path@),
                    None => None,
                },
            ),
            Err(msg) => spec_parse(strings_view(args@)) == Err::<Option<Seq<char>>, Seq<char>>(
                msg@,
            ),
        },
{
    let ghost all = strings_view(args@);
    let mut parser = Parser::new(args);
    let mut collected = Arguments::default();
    proof {
        assert(all.skip(0) =~= all);
    }
    loop
        invariant
            parser.wf(),
            parser.args_view() == all,
            all == strings_view(args@),
            spec_parse(all) == (match spec_parse(all.skip(parser.position())) {
                Ok(None) => Ok::<Option<Seq<char>>, Seq<char>>(
                    match collected.config {
                        Some(path) => Some(path@),
                        None => None,
                    },
                ),
                Ok(Some(path)) => Ok::<Option<Seq<char>>, Seq<char>>(Some(path)),
                Err(msg) => Err::<Option<Seq<char>>, Seq<char>>(msg),
            }),
        decreases all.len() - parser.position(),
    {
        let ghost pos = parser.position();
        match parser.next() {
            None => {
                proof {
                    assert(all.skip(pos) =~= Seq::<Seq<char>>::empty());
                }
                return Ok(collected);
            },
            Some(Ok(Bits::Config(path))) => {
                proof {
                    assert(all.skip(pos).skip(2) =~= all.skip(pos + 2));
                    assert(all.skip(pos)[0] == all[pos] && all.skip(pos)[1] == all[pos + 1]);
                }
                collected.config = Some(path);
            },
            Some(Err(msg)) => {
                proof {
                    assert(all.skip(pos)[0] == all[pos]);
                    if all[pos] == "-c"@ || all[pos] == "--config"@ {
                        assert(all.skip(pos).len() < 2);
                    }
                }
                return Err(msg);
            },
        }
    }
}

} // verus!
