use vstd::prelude::*;
use crate::text::{
    is_whitespace, is_word, lemma_decimal, lemma_parse_decimal, lemma_split_append,
    lemma_split_single, lemma_trim_line, chars_equal, decimal, lemma_split_nonempty, parse_u32, parse_u32_chars, push_decimal,
    split_on_spaces, split_spaces, trim, trim_bounds,
};

verus! {

/// A command sent by the game engine, decoded from one input line.
#[derive(Clone, Copy, Debug, PartialEq, Eq)]
pub enum Command {
    Initialize { width: u32, height: u32, team_id: u32, my_column: u32, enemy_column: u32 },
    Spawn { cell_id: u32, x: u32, y: u32, health: u32, team_id: u32, age: u32 },
    Die { cell_id: u32 },
    SetCellProperties { cell_id: u32, x: u32, y: u32, health: u32, age: u32 },
    ConflictingActions { x: u32, y: u32 },
    RunRound,
    EndGame,
}

/// An action sent to the game engine, encoded as one output line.
#[derive(Clone, Copy, Debug, PartialEq, Eq)]
pub enum Action {
    Move { cell_id: u32, x: u32, y: u32 },
    Attack { cell_id: u32, x: u32, y: u32 },
    Explode { cell_id: u32 },
    Initialized,
    RoundEnd,
}

/// Why an input line is not a command.
#[derive(Clone, Copy, Debug, PartialEq, Eq)]
pub enum ParseCommandError {
    /// A token after the keyword is not an unsigned 32-bit integer.
    NonIntParameter,
    /// The keyword and argument count match no command.
    UnknownCommand,
}

impl ParseCommandError {
    /// A short description of the error.
    pub fn details(&self) -> &'static str {
        match self {
            ParseCommandError::NonIntParameter => "non int parameter found",
            ParseCommandError::UnknownCommand => "Unknown command",
        }
    }
}

/// The command named by `keyword` with the arguments `v`, if any.
pub open spec fn command_of(keyword: Seq<char>, v: Seq<u32>) -> Result<Command, ParseCommandError> {
    if keyword == "INITIALIZE"@ && v.len() == 5 {
        Ok(
            Command::Initialize {
                width: v[0],
                height: v[1],
                team_id: v[2],
                my_column: v[3],
                enemy_column: v[4],
            },
        )
    } else if keyword == "SPAWN"@ && v.len() == 6 {
        Ok(
            Command::Spawn {
                cell_id: v[0],
                x: v[1],
                y: v[2],
                health: v[3],
                team_id: v[4],
                age: v[5],
            },
        )
    } else if keyword == "DIE"@ && v.len() == 1 {
        Ok(Command::Die { cell_id: v[0] })
    } else if keyword == "SET_CELL_PROPERTIES"@ && v.len() == 5 {
        Ok(Command::SetCellProperties { cell_id: v[0], x: v[1], y: v[2], health: v[3], age: v[4] })
    } else if keyword == "CONFLICTING_ACTIONS"@ && v.len() == 2 {
        Ok(Command::ConflictingActions { x: v[0], y: v[1] })
    } else if keyword == "RUN_ROUND"@ && v.len() == 0 {
        Ok(Command::RunRound)
    } else if keyword == "END_GAME"@ && v.len() == 0 {
        Ok(Command::EndGame)
    } else {
        Err(ParseCommandError::UnknownCommand)
    }
}

/// What a line decodes to: the line is trimmed and split on single spaces;
/// every token after the first must be an unsigned 32-bit integer, and the
/// first token together with the number of integers selects the command.
pub open spec fn decode_spec(line: Seq<char>) -> Result<Command, ParseCommandError> {
    let tokens = split_spaces(trim(line));
    let params = tokens.drop_first();
    if exists|i: int| 0 <= i < params.len() && (#[trigger] parse_u32(params[i])) is None {
        Err(ParseCommandError::NonIntParameter)
    } else {
        command_of(tokens[0], params.map_values(|t: Seq<char>| parse_u32(t)->0))
    }
}

/// A keyword followed by its arguments in decimal, separated by single spaces.
pub open spec fn words(keyword: Seq<char>, args: Seq<u32>) -> Seq<char>
    decreases args.len(),
{
    if args.len() == 0 {
        keyword
    } else {
        words(keyword, args.drop_last()) + seq![' '] + decimal(args.last() as nat)
    }
}

/// One protocol line: the words and a newline.
pub open spec fn line_of(keyword: Seq<char>, args: Seq<u32>) -> Seq<char> {
    words(keyword, args) + seq!['\n']
}

impl Command {
    /// The keyword and the arguments of this command, in wire order.
    pub open spec fn parts(self) -> (Seq<char>, Seq<u32>) {
        match self {
            Command::Initialize { width, height, team_id, my_column, enemy_column } => (
                "INITIALIZE"@,
                seq![width, height, team_id, my_column, enemy_column],
            ),
            Command::Spawn { cell_id, x, y, health, team_id, age } => (
                "SPAWN"@,
                seq![cell_id, x, y, health, team_id, age],
            ),
            Command::Die { cell_id } => ("DIE"@, seq![cell_id]),
            Command::SetCellProperties { cell_id, x, y, health, age } => (
                "SET_CELL_PROPERTIES"@,
                seq![cell_id, x, y, health, age],
            ),
            Command::ConflictingActions { x, y } => ("CONFLICTING_ACTIONS"@, seq![x, y]),
            Command::RunRound => ("RUN_ROUND"@, seq![]),
            Command::EndGame => ("END_GAME"@, seq![]),
        }
    }

    /// The line that this command is sent as.
    pub open spec fn line(self) -> Seq<char> {
        line_of(self.parts().0, self.parts().1)
    }
}

impl Action {
    /// The keyword and the arguments of this action, in wire order.
    pub open spec fn parts(self) -> (Seq<char>, Seq<u32>) {
        match self {
            Action::Move { cell_id, x, y } => ("MOVE"@, seq![cell_id, x, y]),
            Action::Attack { cell_id, x, y } => ("ATTACK"@, seq![cell_id, x, y]),
            Action::Explode { cell_id } => ("EXPLODE"@, seq![cell_id]),
            Action::Initialized => ("INITIALIZED"@, seq![]),
            Action::RoundEnd => ("ROUND_END"@, seq![]),
        }
    }

    /// The line that this action is sent as.
    pub open spec fn line(self) -> Seq<char> {
        line_of(self.parts().0, self.parts().1)
    }
}

/// The lines of `actions`, one after another.
pub open spec fn lines(actions: Seq<Action>) -> Seq<char>
    decreases actions.len(),
{
    if actions.len() == 0 {
        Seq::empty()
    } else {
        lines(actions.drop_last()) + actions.last().line()
    }
}

/// Writes `keyword` and `args` as one line.
pub fn encode_line(keyword: &str, args: &Vec<u32>) -> (r: String)
    ensures
        r@ == line_of(keyword@, args@),
{
    let mut out = String::from_str(keyword);
    let mut i: usize = 0;
    while i < args.len()
        invariant
            i <= args@.len(),
            out@ == words(keyword@, args@.subrange(0, i as int)),
        decreases args@.len() - i,
    {
        proof {
            reveal_strlit(" ");
        }
        out.append(" ");
        push_decimal(&mut out, args[i]);
        assert(args@.subrange(0, i + 1).drop_last() =~= args@.subrange(0, i as int));
        i = i + 1;
    }
    assert(args@.subrange(0, args@.len() as int) =~= args@);
    proof {
        reveal_strlit("\n");
    }
    out.append("\n");
    out
}

impl Action {
    /// The line that this action is sent as, newline included.
    pub fn encode(&self) -> (r: String)
        ensures
            r@ == self.line(),
    {
        let (keyword, args): (&str, Vec<u32>) = match self {
            Action::Move { cell_id, x, y } => ("MOVE", vec![*cell_id, *x, *y]),
            Action::Attack { cell_id, x, y } => ("ATTACK", vec![*cell_id, *x, *y]),
            Action::Explode { cell_id } => ("EXPLODE", vec![*cell_id]),
            Action::Initialized => ("INITIALIZED", vec![]),
            Action::RoundEnd => ("ROUND_END", vec![]),
        };
        assert(args@ =~= self.parts().1);
        encode_line(keyword, &args)
    }
}

impl Command {
    /// The line that this command is sent as, newline included.
    pub fn encode(&self) -> (r: String)
        ensures
            r@ == self.line(),
    {
        let (keyword, args): (&str, Vec<u32>) = match self {
            Command::Initialize { width, height, team_id, my_column, enemy_column } => (
                "INITIALIZE",
                vec![*width, *height, *team_id, *my_column, *enemy_column],
            ),
            Command::Spawn { cell_id, x, y, health, team_id, age } => (
                "SPAWN",
                vec![*cell_id, *x, *y, *health, *team_id, *age],
            ),
            Command::Die { cell_id } => ("DIE", vec![*cell_id]),
            Command::SetCellProperties { cell_id, x, y, health, age } => (
                "SET_CELL_PROPERTIES",
                vec![*cell_id, *x, *y, *health, *age],
            ),
            Command::ConflictingActions { x, y } => ("CONFLICTING_ACTIONS", vec![*x, *y]),
            Command::RunRound => ("RUN_ROUND", vec![]),
            Command::EndGame => ("END_GAME", vec![]),
        };
        assert(args@ =~= self.parts().1);
        encode_line(keyword, &args)
    }
}

/// The words of a keyword and arguments split back into the keyword and the
/// decimal writings of the arguments.
proof fn lemma_split_words(keyword: Seq<char>, args: Seq<u32>)
    requires
        is_word(keyword),
    ensures
        split_spaces(words(keyword, args)) == seq![keyword] + args.map_values(
            |a: u32| decimal(a as nat),
        ),
        words(keyword, args).len() > 0,
        words(keyword, args)[0] == keyword[0],
        !is_whitespace(words(keyword, args).last()),
    decreases args.len(),
{
    if args.len() == 0 {
        lemma_split_single(keyword);
        assert(seq![keyword] + args.map_values(|a: u32| decimal(a as nat)) =~= seq![keyword]);
    } else {
        let prev = args.drop_last();
        lemma_split_words(keyword, prev);
        let d = decimal(args.last() as nat);
        lemma_decimal(args.last() as nat);
        lemma_split_append(words(keyword, prev), d);
        assert(seq![keyword] + args.map_values(|a: u32| decimal(a as nat)) =~= (seq![keyword]
            + prev.map_values(|a: u32| decimal(a as nat))).push(d));
        let w = words(keyword, args);
        assert(w == words(keyword, prev) + seq![' '] + d);
        assert(w[0] == words(keyword, prev)[0]);
        assert(w.last() == d.last());
    }
}

/// Decoding the line of a keyword and arguments reads the arguments back.
proof fn lemma_decode_line(keyword: Seq<char>, args: Seq<u32>)
    requires
        is_word(keyword),
    ensures
        decode_spec(line_of(keyword, args)) == command_of(keyword, args),
{
    lemma_split_words(keyword, args);
    let w = words(keyword, args);
    lemma_trim_line(w);
    let tokens = split_spaces(trim(line_of(keyword, args)));
    let params = tokens.drop_first();
    assert(params =~= args.map_values(|a: u32| decimal(a as nat)));
    assert forall|i: int| 0 <= i < params.len() implies (#[trigger] parse_u32(params[i]))
        == Some(args[i]) by {
        lemma_parse_decimal(args[i]);
    }
    assert(params.map_values(|t: Seq<char>| parse_u32(t)->0) =~= args);
    assert(tokens[0] == keyword);
}

/// Decoding the line that a command is sent as gives that command back,
/// every argument unchanged.
pub proof fn lemma_decode_encode(c: Command)
    ensures
        decode_spec(c.line()) == Ok::<Command, ParseCommandError>(c),
{
    reveal_strlit("INITIALIZE");
    reveal_strlit("SPAWN");
    reveal_strlit("DIE");
    reveal_strlit("SET_CELL_PROPERTIES");
    reveal_strlit("CONFLICTING_ACTIONS");
    reveal_strlit("RUN_ROUND");
    reveal_strlit("END_GAME");
    let (keyword, args) = c.parts();
    assert(is_word(keyword));
    lemma_decode_line(keyword, args);
}

/// Every line that decodes to a command is read the same way once the
/// command is encoded again.
pub proof fn lemma_reencode(line: Seq<char>)
    requires
        decode_spec(line) is Ok,
    ensures
        decode_spec(decode_spec(line)->Ok_0.line()) == decode_spec(line),
{
    lemma_decode_encode(decode_spec(line)->Ok_0);
}

/// Whether a keyword and an argument count name a command.
pub open spec fn is_known_shape(keyword: Seq<char>, n: nat) -> bool {
    ||| keyword == "INITIALIZE"@ && n == 5
    ||| keyword == "SPAWN"@ && n == 6
    ||| keyword == "DIE"@ && n == 1
    ||| keyword == "SET_CELL_PROPERTIES"@ && n == 5
    ||| keyword == "CONFLICTING_ACTIONS"@ && n == 2
    ||| keyword == "RUN_ROUND"@ && n == 0
    ||| keyword == "END_GAME"@ && n == 0
}

/// Decoding fails on a blank line, on a token after the keyword that is not
/// an unsigned 32-bit integer, and on a keyword that with its number of
/// arguments names no command (an unknown keyword, or a known one with the
/// wrong count).
pub proof fn lemma_decode_rejects(line: Seq<char>)
    ensures
        trim(line).len() == 0 ==> decode_spec(line) is Err,
        ({
            let tokens = split_spaces(trim(line));
            exists|i: int| 1 <= i < tokens.len() && (#[trigger] parse_u32(tokens[i])) is None
        }) ==> decode_spec(line) == Err::<Command, ParseCommandError>(
            ParseCommandError::NonIntParameter,
        ),
        ({
            let tokens = split_spaces(trim(line));
            !is_known_shape(tokens[0], (tokens.len() - 1) as nat)
        }) ==> decode_spec(line) is Err,
{
    reveal_strlit("INITIALIZE");
    reveal_strlit("SPAWN");
    reveal_strlit("DIE");
    reveal_strlit("SET_CELL_PROPERTIES");
    reveal_strlit("CONFLICTING_ACTIONS");
    reveal_strlit("RUN_ROUND");
    reveal_strlit("END_GAME");
    let tokens = split_spaces(trim(line));
    let params = tokens.drop_first();
    lemma_split_nonempty(trim(line));
    if trim(line).len() == 0 {
        assert(trim(line) =~= Seq::<char>::empty());
        assert(tokens == seq![Seq::<char>::empty()]);
        assert(tokens[0].len() == 0);
        assert(params.len() == 0);
        assert(params.map_values(|t: Seq<char>| parse_u32(t)->0).len() == 0);
    }
    if exists|i: int| 1 <= i < tokens.len() && (#[trigger] parse_u32(tokens[i])) is None {
        let i = choose|i: int| 1 <= i < tokens.len() && (#[trigger] parse_u32(tokens[i])) is None;
        assert(params[i - 1] == tokens[i]);
    }
}

/// Selects the command named by `keyword` with the arguments `v`.
fn dispatch(keyword: &Vec<char>, v: &Vec<u32>) -> (r: Result<Command, ParseCommandError>)
    ensures
        r == command_of(keyword@, v@),
{
    let n = v.len();
    if chars_equal(keyword, "INITIALIZE") && n == 5 {
        Ok(
            Command::Initialize {
                width: v[0],
                height: v[1],
                team_id: v[2],
                my_column: v[3],
                enemy_column: v[4],
            },
        )
    } else if chars_equal(keyword, "SPAWN") && n == 6 {
        Ok(
            Command::Spawn {
                cell_id: v[0],
                x: v[1],
                y: v[2],
                health: v[3],
                team_id: v[4],
                age: v[5],
            },
        )
    } else if chars_equal(keyword, "DIE") && n == 1 {
        Ok(Command::Die { cell_id: v[0] })
    } else if chars_equal(keyword, "SET_CELL_PROPERTIES") && n == 5 {
        Ok(Command::SetCellProperties { cell_id: v[0], x: v[1], y: v[2], health: v[3], age: v[4] })
    } else if chars_equal(keyword, "CONFLICTING_ACTIONS") && n == 2 {
        Ok(Command::ConflictingActions { x: v[0], y: v[1] })
    } else if chars_equal(keyword, "RUN_ROUND") && n == 0 {
        Ok(Command::RunRound)
    } else if chars_equal(keyword, "END_GAME") && n == 0 {
        Ok(Command::EndGame)
    } else {
        Err(ParseCommandError::UnknownCommand)
    }
}

impl std::str::FromStr for Command {
    type Err = ParseCommandError;

    fn from_str(s: &str) -> (r: Result<Command, ParseCommandError>)
        ensures
            r == decode_spec(s@),
    {
        decode(s)
    }
}

/// Decodes one input line into a command.
pub fn decode(line: &str) -> (r: Result<Command, ParseCommandError>)
    ensures
        r == decode_spec(line@),
{
    let (a, b) = trim_bounds(line);
    let tokens = split_on_spaces(line, a, b);
    let ghost toks = split_spaces(trim(line@));
    let ghost params = toks.drop_first();
    proof {
        lemma_split_nonempty(trim(line@));
    }
    let mut values: Vec<u32> = Vec::new();
    let mut i: usize = 1;
    while i < tokens.len()
        invariant
            tokens@.len() == toks.len(),
            forall|j: int| 0 <= j < tokens@.len() ==> #[trigger] tokens@[j]@ == toks[j],
            toks == split_spaces(trim(line@)),
            params == toks.drop_first(),
            1 <= i <= tokens@.len(),
            values@.len() == i - 1,
            forall|j: int| 0 <= j < i - 1 ==> (#[trigger] parse_u32(params[j])) == Some(values@[j]),
        decreases tokens@.len() - i,
    {
        match parse_u32_chars(&tokens[i]) {
            Some(v) => {
                values.push(v);
            },
            None => {
                let ghost k = i - 1;
                assert(params[k] == toks[i as int]);
                assert(parse_u32(params[k]) is None);
                return Err(ParseCommandError::NonIntParameter);
            },
        }
        i = i + 1;
    }
    assert(values@ =~= params.map_values(|t: Seq<char>| parse_u32(t)->0));
    dispatch(&tokens[0], &values)
}

} // verus!
