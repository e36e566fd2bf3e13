use vstd::prelude::*;
use crate::field::{ParserState, interpret, interpret_line, next_state};
use crate::game::{Game, GameView, empty_game};
use crate::text::{chars_of, lines, lines_of};

verus! {

/// A marker for parser states.
pub trait State {}

/// How the parser treats a line that does not carry the expected field.
#[derive(Clone, Copy, PartialEq, Eq, Structural, Debug)]
pub enum ParsingMode {
    /// Stop reading at the first such line.
    Strict,
    /// Skip the line, leave its field empty, and go on with the next field.
    Relaxed,
}

/// The outcome of a parse: the completed records, in input order, and where any lines
/// were rejected, the 1-based line number at which each run of rejected lines began.
pub enum ParserResult {
    WithError(Vec<Game>, Vec<usize>),
    WithoutError(Vec<Game>),
}

pub open spec fn games_view(v: Seq<Game>) -> Seq<GameView> {
    v.map_values(|g: Game| g@)
}

impl View for ParserResult {
    /// The records, and the line numbers at which runs of errors began (empty without error).
    type V = (Seq<GameView>, Seq<usize>);

    open spec fn view(&self) -> (Seq<GameView>, Seq<usize>) {
        match self {
            ParserResult::WithError(games, lines) => (games_view(games@), lines@),
            ParserResult::WithoutError(games) => (games_view(games@), Seq::empty()),
        }
    }
}

impl ParserResult {
    /// The records, whether or not errors occurred.
    pub fn into_games(self) -> (r: Vec<Game>)
        ensures
            games_view(r@) == self@.0,
    {
        match self {
            ParserResult::WithError(games, _) => games,
            ParserResult::WithoutError(games) => games,
        }
    }
}

/// The state of a parser: the expected field, the record under construction,
/// the records completed so far, and the mode.
pub struct ParserView {
    pub state: ParserState,
    pub current: GameView,
    pub games: Seq<GameView>,
    pub mode: ParsingMode,
}

/// A parser that has read nothing.
pub open spec fn fresh(mode: ParsingMode) -> ParserView {
    ParserView { state: ParserState::Name, current: empty_game(), games: Seq::empty(), mode }
}

/// `p` after the field it expects has been given the record `g`: the next field is
/// expected, and after the last field the record is completed and a new one begun.
pub open spec fn advance(p: ParserView, g: GameView) -> ParserView {
    if p.state == ParserState::Updated {
        ParserView { state: ParserState::Name, current: empty_game(), games: p.games.push(g), ..p }
    } else {
        ParserView { state: next_state(p.state), current: g, ..p }
    }
}

/// `p` after reading `line`, and whether the line carried the expected field.
/// A rejected line leaves a strict parser as it was and makes a relaxed one skip the field.
pub open spec fn read_line(p: ParserView, line: Seq<char>) -> (ParserView, bool) {
    match interpret(p.current, p.state, line) {
        Some(g) => (advance(p, g), true),
        None => if p.mode == ParsingMode::Strict {
            (p, false)
        } else {
            (advance(p, p.current), false)
        },
    }
}

/// Where a parse stands after some lines: the parser, the line numbers that began a run
/// of errors, whether the last line read was rejected, and whether reading has stopped.
pub struct Run {
    pub parser: ParserView,
    pub errors: Seq<usize>,
    pub erroring: bool,
    pub stopped: bool,
}

/// `r` after reading `line`, the `n`-th line of the input.
pub open spec fn step(r: Run, line: Seq<char>, n: nat) -> Run {
    if r.stopped {
        r
    } else {
        let (p, ok) = read_line(r.parser, line);
        if ok {
            Run { parser: p, erroring: false, ..r }
        } else {
            Run {
                parser: p,
                errors: if r.erroring { r.errors } else { r.errors.push(n as usize) },
                erroring: true,
                stopped: p.mode == ParsingMode::Strict,
            }
        }
    }
}

/// The parse of `lines` by the parser `p`.
pub open spec fn run(p: ParserView, lines: Seq<Seq<char>>) -> Run
    decreases lines.len(),
{
    if lines.len() == 0 {
        Run { parser: p, errors: Seq::empty(), erroring: false, stopped: false }
    } else {
        step(run(p, lines.drop_last()), lines.last(), lines.len())
    }
}

/// The records and error line numbers that `p` yields on the text `text`.
pub open spec fn outcome(p: ParserView, text: Seq<char>) -> (Seq<GameView>, Seq<usize>) {
    let r = run(p, lines_of(text));
    (r.parser.games, r.errors)
}

/// Once reading has stopped, further lines change nothing.
pub proof fn lemma_stopped_stays(p: ParserView, lines: Seq<Seq<char>>, i: int)
    requires
        0 <= i <= lines.len(),
        run(p, lines.subrange(0, i)).stopped,
    ensures
        run(p, lines) == run(p, lines.subrange(0, i)),
    decreases lines.len(),
{
    if i < lines.len() {
        assert(lines.drop_last().subrange(0, i) =~= lines.subrange(0, i));
        lemma_stopped_stays(p, lines.drop_last(), i);
    } else {
        assert(lines.subrange(0, i) =~= lines);
    }
}

/// A line-oriented parser of the record database.
pub struct Parser {
    state: ParserState,
    current: Game,
    games: Vec<Game>,
    mode: ParsingMode,
}

impl View for Parser {
    type V = ParserView;

    closed spec fn view(&self) -> ParserView {
        ParserView {
            state: self.state,
            current: self.current@,
            games: games_view(self.games@),
            mode: self.mode,
        }
    }
}

impl Default for Parser {
    /// A relaxed parser that has read nothing.
    fn default() -> (r: Self)
        ensures
            r@ == fresh(ParsingMode::Relaxed),
    {
        Parser::new(ParsingMode::Relaxed)
    }
}

impl Parser {
    /// A parser in the given mode that has read nothing.
    pub fn new(mode: ParsingMode) -> (r: Self)
        ensures
            r@ == fresh(mode),
    {
        let r = Parser { state: ParserState::Name, current: Game::empty(), games: Vec::new(), mode };
        assert(games_view(r.games@) =~= Seq::<GameView>::empty());
        r
    }

    /// The mode chosen at construction.
    pub fn mode(&self) -> (r: ParsingMode)
        ensures
            r == self@.mode,
    {
        self.mode
    }

    /// Gives the expected field the record `self.current`, as `advance` says.
    fn advance(&mut self)
        ensures
            final(self)@ == advance(old(self)@, old(self)@.current),
    {
        if self.state == ParserState::Updated {
            let mut done = Game::empty();
            std::mem::swap(&mut self.current, &mut done);
            self.games.push(done);
            self.state = ParserState::Name;
            assert(games_view(self.games@) =~= games_view(old(self).games@).push(done@));
        } else {
            self.state = self.state.next();
        }
    }

    /// Reads one line, as `read_line` says.
    fn parse(&mut self, line: &[char]) -> (ok: bool)
        ensures
            (final(self)@, ok) == read_line(old(self)@, line@),
    {
        let state = self.state;
        let ok = interpret_line(&mut self.current, state, line);
        if ok {
            self.advance();
        } else {
            match self.mode {
                ParsingMode::Strict => {},
                ParsingMode::Relaxed => self.advance(),
            }
        }
        ok
    }

    /// Parses every line of `data`. A strict parser stops at the first rejected line;
    /// a relaxed one reads on. Records left incomplete at the end are dropped.
    pub fn load_from_string(self, data: &str) -> (r: ParserResult)
        ensures
            r@ == outcome(self@, data@),
            r is WithError <==> outcome(self@, data@).1.len() > 0,
    {
        let mut p = self;
        let cs = chars_of(data);
        let ls = lines(cs.as_slice());
        let ghost all = lines_of(data@);
        let n: usize = ls.len();
        let mut errors: Vec<usize> = Vec::new();
        let mut erroring = false;
        let mut stopped = false;
        let mut i: usize = 0;
        assert(all.subrange(0, 0) =~= Seq::<Seq<char>>::empty());
        while i < n && !stopped
            invariant
                n == all.len() == ls@.len(),
                forall|j: int| 0 <= j < n ==> #[trigger] ls@[j]@ == all[j],
                i <= n,
                run(self@, all.subrange(0, i as int)) == (Run {
                    parser: p@,
                    errors: errors@,
                    erroring,
                    stopped,
                }),
            decreases n - i,
        {
            assert(all.subrange(0, i + 1).drop_last() =~= all.subrange(0, i as int));
            let ok = p.parse(ls[i].as_slice());
            if ok {
                erroring = false;
            } else {
                if !erroring {
                    errors.push(i + 1);
                }
                erroring = true;
                stopped = match p.mode {
                    ParsingMode::Strict => true,
                    ParsingMode::Relaxed => false,
                };
            }
            i = i + 1;
        }
        proof {
            if stopped {
                lemma_stopped_stays(self@, all, i as int);
            } else {
                assert(all.subrange(0, i as int) =~= all);
            }
        }
        if errors.len() > 0 {
            ParserResult::WithError(p.games, errors)
        } else {
            ParserResult::WithoutError(p.games)
        }
    }
}

} // verus!
