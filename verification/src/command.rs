//! The command surface: one line of user input, already split on
//! whitespace, mapped to the operation it asks for. Path arguments may
//! contain spaces, so the remaining tokens are rejoined with single spaces.
use vstd::prelude::*;
use vstd::string::*;
use crate::text::str_eq;

verus! {

/// A parsed command line.
#[derive(PartialEq, Eq, Debug)]
pub enum Command {
    /// `load <path>`: enqueue one file.
    Load(String),
    /// `play`: start or resume.
    Play,
    /// `pause`.
    Pause,
    /// `stop`.
    Stop,
    /// `volume <v>`: the raw argument, parsed separately.
    Volume(String),
    /// `playlist run <folder>`: load a directory and start it.
    PlaylistRun(String),
    /// `playlist show`.
    PlaylistShow,
    /// `playlist status`.
    PlaylistStatus,
    /// `help`.
    Help,
    /// `quit`, `exit` or `q`.
    Quit,
    /// A blank line: nothing to do.
    Empty,
    /// `load` without a path.
    LoadUsage,
    /// `volume` without a value.
    VolumeUsage,
    /// `playlist` without a subcommand.
    PlaylistUsage,
    /// `playlist run` without a folder.
    PlaylistRunUsage,
    /// `playlist` with an unrecognized subcommand.
    PlaylistUnknown,
    /// Anything else.
    Unknown,
}

/// The tokens from `parts` onward, rejoined with single spaces.
pub open spec fn spec_joined(parts: Seq<String>) -> Seq<char>
    decreases parts.len(),
{
    if parts.len() == 0 {
        Seq::empty()
    } else if parts.len() == 1 {
        parts[0]@
    } else {
        spec_joined(parts.drop_last()) + " "@ + parts.last()@
    }
}

/// Rejoin the tokens from `from` onward with single spaces.
fn join_tokens(tokens: &Vec<String>, from: usize) -> (r: String)
    requires
        from < tokens@.len(),
    ensures
        r@ == spec_joined(tokens@.skip(from as int)),
{
    let ghost sub = tokens@.skip(from as int);
    let n = tokens.len();
    let mut acc = tokens[from].clone();
    proof {
        assert(sub.take(1)[0] == tokens@[from as int]);
    }
    let mut i: usize = from + 1;
    while i < tokens.len()
        invariant
            from < i <= tokens@.len(),
            sub == tokens@.skip(from as int),
            acc@ == spec_joined(sub.take(i - from)),
        decreases tokens@.len() - i,
    {
        acc.append(" ");
        acc.append(tokens[i].as_str());
        proof {
            assert(sub.take(i + 1 - from).drop_last() =~= sub.take(i - from));
            assert(sub.take(i + 1 - from).last() == sub[i - from]);
            assert(sub[i - from] == tokens@[i as int]);
        }
        i = i + 1;
    }
    proof {
        assert(sub.take(tokens@.len() - from) =~= sub);
    }
    acc
}

/// What the tokens of a command line ask for: the first token selects the
/// command, a missing argument gives its usage reminder, and a path or
/// folder argument is the remaining tokens rejoined. Each test applies only
/// where the earlier ones failed, exactly as the command table reads.
pub open spec fn parses_to(ts: Seq<String>, c: Command) -> bool {
    if ts.len() == 0 {
        c == Command::Empty
    } else {
        let t0 = ts[0]@;
        if t0 == "load"@ {
            if ts.len() < 2 {
                c == Command::LoadUsage
            } else {
                c matches Command::Load(p) && p@ == spec_joined(ts.skip(1))
            }
        } else if t0 == "play"@ {
            c == Command::Play
        } else if t0 == "pause"@ {
            c == Command::Pause
        } else if t0 == "stop"@ {
            c == Command::Stop
        } else if t0 == "volume"@ {
            if ts.len() < 2 {
                c == Command::VolumeUsage
            } else {
                c matches Command::Volume(v) && v@ == ts[1]@
            }
        } else if t0 == "help"@ {
            c == Command::Help
        } else if t0 == "quit"@ || t0 == "exit"@ || t0 == "q"@ {
            c == Command::Quit
        } else if t0 == "playlist"@ {
            if ts.len() < 2 {
                c == Command::PlaylistUsage
            } else {
                let t1 = ts[1]@;
                if t1 == "run"@ {
                    if ts.len() < 3 {
                        c == Command::PlaylistRunUsage
                    } else {
                        c matches Command::PlaylistRun(f) && f@ == spec_joined(ts.skip(2))
                    }
                } else if t1 == "show"@ {
                    c == Command::PlaylistShow
                } else if t1 == "status"@ {
                    c == Command::PlaylistStatus
                } else {
                    c == Command::PlaylistUnknown
                }
            }
        } else {
            c == Command::Unknown
        }
    }
}

/// Map a tokenized command line to the operation it asks for, as
/// [`parses_to`] describes.
pub fn parse_command(tokens: &Vec<String>) -> (c: Command)
    ensures
        parses_to(tokens@, c),
{
    if tokens.len() == 0 {
        return Command::Empty;
    }
    let t0 = tokens[0].as_str();
    if str_eq(t0, "load") {
        if tokens.len() < 2 {
            Command::LoadUsage
        } else {
            Command::Load(join_tokens(tokens, 1))
        }
    } else if str_eq(t0, "play") {
        Command::Play
    } else if str_eq(t0, "pause") {
        Command::Pause
    } else if str_eq(t0, "stop") {
        Command::Stop
    } else if str_eq(t0, "volume") {
        if tokens.len() < 2 {
            Command::VolumeUsage
        } else {
            Command::Volume(tokens[1].clone())
        }
    } else if str_eq(t0, "help") {
        Command::Help
    } else if str_eq(t0, "quit") || str_eq(t0, "exit") || str_eq(t0, "q") {
        Command::Quit
    } else if str_eq(t0, "playlist") {
        if tokens.len() < 2 {
            Command::PlaylistUsage
        } else {
            let t1 = tokens[1].as_str();
            if str_eq(t1, "run") {
                if tokens.len() < 3 {
                    Command::PlaylistRunUsage
                } else {
                    Command::PlaylistRun(join_tokens(tokens, 2))
                }
            } else if str_eq(t1, "show") {
                Command::PlaylistShow
            } else if str_eq(t1, "status") {
                Command::PlaylistStatus
            } else {
                Command::PlaylistUnknown
            }
        }
    } else {
        Command::Unknown
    }
}

} // verus!
