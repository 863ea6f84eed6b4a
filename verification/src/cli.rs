//! Command-line argument parsing for the file-processing tool.
//!
//! The raw argument vector (element 0 the program name, element 1 the
//! sub-command keyword) is mapped to exactly one [`Command`] variant or to a
//! [`ParseError`]. Parsing is a pure function: arity is checked for every
//! sub-command before any handler can run, an unknown keyword is always
//! rejected, and the contract pins the outcome for every argument vector.

use crate::strings::eq_str;
use vstd::prelude::*;
use vstd::string::StringExecFns;

verus! {

/// One operation of the tool, with its validated payload.
#[derive(Debug, PartialEq)]
pub enum Command {
    Help,
    Count { file: String },
    Info { file: String },
    Find { file: String, pattern: String },
    List { directory: String },
    Create { file: String, content: String },
}

/// Why an argument vector was rejected.
#[derive(Debug, PartialEq)]
pub enum ParseError {
    /// `count` takes exactly one file argument.
    CountUsage,
    /// `info` takes exactly one file argument.
    InfoUsage,
    /// `find` takes exactly a file and a pattern argument.
    FindUsage,
    /// `create` takes a file argument and at least one content argument.
    CreateUsage,
    /// The keyword selects no sub-command.
    UnknownCommand { keyword: String },
}

/// The keywords that select the help text.
pub open spec fn keyword_help(k: Seq<char>) -> bool {
    k == "help"@ || k == "--help"@ || k == "-h"@
}

/// The keywords that select some sub-command.
pub open spec fn known_keyword(k: Seq<char>) -> bool {
    keyword_help(k) || k == "count"@ || k == "info"@ || k == "find"@ || k == "list"@ || k
        == "create"@
}

/// The parts joined by single spaces.
pub open spec fn spec_join_spaces(parts: Seq<Seq<char>>) -> Seq<char>
    decreases parts.len(),
{
    if parts.len() == 0 {
        Seq::<char>::empty()
    } else if parts.len() == 1 {
        parts[0]
    } else {
        spec_join_spaces(parts.drop_last()) + seq![' '] + parts.last()
    }
}

/// What `parse_command` returns on an argument vector, clause by clause:
/// each keyword class determines the result.
pub open spec fn parse_post(args: Seq<String>, r: Result<Command, ParseError>) -> bool {
    let kw = args[1]@;
    &&& (keyword_help(kw) ==> r == Ok::<Command, ParseError>(Command::Help))
    &&& (kw == "count"@ ==> (if args.len() == 3 {
        r matches Ok(Command::Count { file }) && file@ == args[2]@
    } else {
        r == Err::<Command, ParseError>(ParseError::CountUsage)
    }))
    &&& (kw == "info"@ ==> (if args.len() == 3 {
        r matches Ok(Command::Info { file }) && file@ == args[2]@
    } else {
        r == Err::<Command, ParseError>(ParseError::InfoUsage)
    }))
    &&& (kw == "find"@ ==> (if args.len() == 4 {
        r matches Ok(Command::Find { file, pattern }) && file@ == args[2]@ && pattern@
            == args[3]@
    } else {
        r == Err::<Command, ParseError>(ParseError::FindUsage)
    }))
    &&& (kw == "list"@ ==> (r matches Ok(Command::List { directory }) && directory@ == (
    if args.len() == 3 {
        args[2]@
    } else {
        "."@
    })))
    &&& (kw == "create"@ ==> (if args.len() >= 4 {
        r matches Ok(Command::Create { file, content }) && file@ == args[2]@ && content@
            == spec_join_spaces(args.map_values(|a: String| a@).skip(3))
    } else {
        r == Err::<Command, ParseError>(ParseError::CreateUsage)
    }))
    &&& (!known_keyword(kw) ==> (r matches Err(ParseError::UnknownCommand { keyword })
        && keyword@ == kw))
}

/// An arity violation always fails: for every sub-command, an argument
/// vector with the wrong number of arguments parses to its usage error,
/// never to a command. Parsing is pure, so the failure happens before any
/// filesystem work.
pub proof fn lemma_arity_violation_is_rejected(args: Seq<String>, r: Result<Command, ParseError>)
    requires
        args.len() >= 2,
        parse_post(args, r),
    ensures
        args[1]@ == "count"@ && args.len() != 3 ==> r == Err::<Command, ParseError>(
            ParseError::CountUsage,
        ),
        args[1]@ == "info"@ && args.len() != 3 ==> r == Err::<Command, ParseError>(
            ParseError::InfoUsage,
        ),
        args[1]@ == "find"@ && args.len() != 4 ==> r == Err::<Command, ParseError>(
            ParseError::FindUsage,
        ),
        args[1]@ == "create"@ && args.len() < 4 ==> r == Err::<Command, ParseError>(
            ParseError::CreateUsage,
        ),
{
}

/// An unknown sub-command keyword always fails, naming the keyword; no
/// command value exists for it, so no handler can ever be invoked.
pub proof fn lemma_unknown_keyword_is_rejected(args: Seq<String>, r: Result<Command, ParseError>)
    requires
        args.len() >= 2,
        parse_post(args, r),
        !known_keyword(args[1]@),
    ensures
        r matches Err(e) && e matches ParseError::UnknownCommand { keyword } && keyword@
            == args[1]@,
{
}

/// Joins the arguments from position `from` on with single spaces.
pub fn join_with_spaces(args: &Vec<String>, from: usize) -> (r: String)
    requires
        from <= args@.len(),
    ensures
        r@ == spec_join_spaces(args@.map_values(|a: String| a@).skip(from as int)),
{
    let ghost parts = args@.map_values(|a: String| a@);
    let mut r = String::new();
    let mut i: usize = from;
    proof {
        assert(parts.skip(from as int).take(0) =~= Seq::<Seq<char>>::empty());
        reveal_strlit(" ");
        assert(" "@ =~= seq![' ']);
    }
    while i < args.len()
        invariant
            from <= i <= args@.len(),
            parts == args@.map_values(|a: String| a@),
            r@ == spec_join_spaces(parts.skip(from as int).take(i - from)),
            " "@ =~= seq![' '],
        decreases args@.len() - i,
    {
        let ghost before = parts.skip(from as int).take(i - from);
        if i > from {
            r.append(" ");
        }
        r.append(args[i].as_str());
        i = i + 1;
        proof {
            let now = parts.skip(from as int).take(i - from);
            assert(now.drop_last() =~= before);
            assert(now.last() == parts[i - 1]);
            assert(parts[i - 1] == args@[i - 1]@);
            if now.len() > 1 {
                assert(r@ =~= spec_join_spaces(before) + seq![' '] + parts[i - 1]);
            } else {
                assert(r@ =~= parts[i - 1]);
            }
        }
    }
    proof {
        assert(parts.skip(from as int).take(args@.len() - from) =~= parts.skip(from as int));
    }
    r
}

/// Maps the raw argument vector to a command, validating arity. Pure: no
/// filesystem access can happen before parsing succeeds.
pub fn parse_command(args: &Vec<String>) -> (r: Result<Command, ParseError>)
    requires
        args@.len() >= 2,
    ensures
        parse_post(args@, r),
{
    proof {
        reveal_strlit("help");
        reveal_strlit("--help");
        reveal_strlit("-h");
        reveal_strlit("count");
        reveal_strlit("info");
        reveal_strlit("find");
        reveal_strlit("list");
        reveal_strlit("create");
        assert("help"@.len() == 4);
        assert("--help"@.len() == 6);
        assert("-h"@.len() == 2);
        assert("count"@.len() == 5);
        assert("info"@.len() == 4);
        assert("find"@.len() == 4);
        assert("list"@.len() == 4);
        assert("create"@.len() == 6);
        assert("help"@[0] == 'h');
        assert("info"@[0] == 'i');
        assert("find"@[0] == 'f');
        assert("list"@[0] == 'l');
        assert("--help"@[0] == '-');
        assert("create"@[0] == 'c');
    }
    let kw = &args[1];
    if eq_str(kw.as_str(), "help") || eq_str(kw.as_str(), "--help") || eq_str(
        kw.as_str(),
        "-h",
    ) {
        return Ok(Command::Help);
    }
    if eq_str(kw.as_str(), "count") {
        if args.len() != 3 {
            return Err(ParseError::CountUsage);
        }
        return Ok(Command::Count { file: args[2].clone() });
    }
    if eq_str(kw.as_str(), "info") {
        if args.len() != 3 {
            return Err(ParseError::InfoUsage);
        }
        return Ok(Command::Info { file: args[2].clone() });
    }
    if eq_str(kw.as_str(), "find") {
        if args.len() != 4 {
            return Err(ParseError::FindUsage);
        }
        return Ok(Command::Find { file: args[2].clone(), pattern: args[3].clone() });
    }
    if eq_str(kw.as_str(), "list") {
        let directory = if args.len() == 3 {
            args[2].clone()
        } else {
            String::from_str(".")
        };
        return Ok(Command::List { directory });
    }
    if eq_str(kw.as_str(), "create") {
        if args.len() < 4 {
            return Err(ParseError::CreateUsage);
        }
        let content = join_with_spaces(args, 3);
        return Ok(Command::Create { file: args[2].clone(), content });
    }
    Err(ParseError::UnknownCommand { keyword: kw.clone() })
}

} // verus!
