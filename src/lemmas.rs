use vstd::prelude::*;
use crate::field::{ParserState, accepts, field_raw, key_of, lemma_next_state_at, set_field, state_at};
use crate::game::{GameView, empty_game};
use crate::parser::{Parser, ParsingMode, ParserView, Run, fresh, outcome, run, step, lemma_stopped_stays};
use crate::text::lines_of;

verus! {

/// Whether line `j` (counting from 0) carries the field that its place in the record calls for.
pub open spec fn fits(lines: Seq<Seq<char>>, j: nat) -> bool {
    accepts(state_at(j % 16), lines[j as int])
}

/// The record built from the first `len` lines starting at `start`, each carrying
/// the field its place calls for.
pub open spec fn fill(lines: Seq<Seq<char>>, start: nat, len: nat) -> GameView
    decreases len,
{
    if len == 0 {
        empty_game()
    } else {
        let s = state_at((len - 1) as nat);
        set_field(fill(lines, start, (len - 1) as nat), s, field_raw(key_of(s), lines[start + len - 1]).unwrap())
    }
}

/// The `n` records held by the first `16 * n` lines.
pub open spec fn records(lines: Seq<Seq<char>>, n: nat) -> Seq<GameView> {
    Seq::new(n, |r: int| fill(lines, (16 * r) as nat, 16))
}

/// After `16 * q + m` lines that each carry their expected field, the parser expects
/// field `m` of record `q`, holds the first `m` fields of it, and has completed `q` records.
pub proof fn lemma_fitting_prefix(mode: ParsingMode, lines: Seq<Seq<char>>, q: nat, m: nat)
    requires
        m < 16,
        16 * q + m <= lines.len(),
        forall|j: nat| j < 16 * q + m ==> #[trigger] fits(lines, j),
    ensures
        run(fresh(mode), lines.subrange(0, (16 * q + m) as int)) == (Run {
            parser: ParserView {
                state: state_at(m),
                current: fill(lines, 16 * q, m),
                games: records(lines, q),
                mode,
            },
            errors: Seq::empty(),
            erroring: false,
            stopped: false,
        }),
    decreases q, m,
{
    let i = 16 * q + m;
    if i == 0 {
        assert(records(lines, 0) =~= Seq::<GameView>::empty());
        return;
    }
    let (pq, pm) = if m > 0 { (q, (m - 1) as nat) } else { ((q - 1) as nat, 15nat) };
    lemma_fitting_prefix(mode, lines, pq, pm);
    let j: nat = (i - 1) as nat;
    assert(j == 16 * pq + pm);
    assert(j % 16 == pm) by (nonlinear_arith)
        requires j == 16 * pq + pm, pm < 16;
    assert(fits(lines, j));
    assert(lines.subrange(0, i as int).drop_last() =~= lines.subrange(0, j as int));
    lemma_next_state_at(pm);
    assert((pm + 1) % 16 == m);
    if m == 0 {
        assert(records(lines, pq).push(fill(lines, 16 * pq, 16)) =~= records(lines, q));
    }
}

/// Text made of whole records, each line carrying the field its place calls for, parses
/// in either mode into exactly those records, in input order, with no error.
pub proof fn lemma_whole_records(mode: ParsingMode, text: Seq<char>, n: nat)
    requires
        lines_of(text).len() == 16 * n,
        forall|j: nat| j < 16 * n ==> #[trigger] fits(lines_of(text), j),
    ensures
        outcome(fresh(mode), text) == (records(lines_of(text), n), Seq::<usize>::empty()),
{
    let lines = lines_of(text);
    lemma_fitting_prefix(mode, lines, n, 0);
    assert(lines.subrange(0, (16 * n) as int) =~= lines);
}

/// In strict mode, where line `k` (counting from 1) is the first that does not carry its
/// expected field, the records are exactly those completed before it and the error list is `[k]`.
pub proof fn lemma_strict_first_error(text: Seq<char>, k: nat)
    requires
        1 <= k <= lines_of(text).len(),
        forall|j: nat| j < k - 1 ==> #[trigger] fits(lines_of(text), j),
        !fits(lines_of(text), (k - 1) as nat),
    ensures
        outcome(fresh(ParsingMode::Strict), text) == (records(lines_of(text), ((k - 1) / 16) as nat), seq![k as usize]),
{
    let lines = lines_of(text);
    let j: nat = (k - 1) as nat;
    let q: nat = j / 16;
    let m: nat = j % 16;
    assert(j == 16 * q + m && m < 16) by (nonlinear_arith)
        requires q == j / 16, m == j % 16;
    lemma_fitting_prefix(ParsingMode::Strict, lines, q, m);
    assert(lines.subrange(0, k as int).drop_last() =~= lines.subrange(0, j as int));
    assert(seq![].push(k as usize) =~= seq![k as usize]);
    lemma_stopped_stays(fresh(ParsingMode::Strict), lines, k as int);
}

/// Whether, after the first `i` lines, a relaxed parser is still reading and expects
/// the field of place `i % 16` of a record.
pub open spec fn relaxed_run_shape(lines: Seq<Seq<char>>, i: nat) -> bool {
    let r = run(fresh(ParsingMode::Relaxed), lines.subrange(0, i as int));
    &&& r.parser.state == state_at(i % 16)
    &&& r.parser.mode == ParsingMode::Relaxed
    &&& !r.stopped
}

/// In relaxed mode, where the only lines that do not carry their expected field are the
/// `m` lines from line `k` on (counting from 1), after `i` lines the error list is `[k]`
/// once line `k` has been read and empty before, and the last line read was rejected
/// exactly when it lies in that run.
pub proof fn lemma_relaxed_run(lines: Seq<Seq<char>>, k: nat, m: nat, i: nat)
    requires
        1 <= k,
        1 <= m,
        k + m - 1 <= lines.len(),
        i <= lines.len(),
        forall|j: nat| j < lines.len() ==> (#[trigger] fits(lines, j) <==> !(k - 1 <= j < k + m - 1)),
    ensures
        relaxed_run_shape(lines, i),
        run(fresh(ParsingMode::Relaxed), lines.subrange(0, i as int)).errors
            == (if i >= k { seq![k as usize] } else { Seq::<usize>::empty() }),
        run(fresh(ParsingMode::Relaxed), lines.subrange(0, i as int)).erroring
            == (i >= 1 && k <= i < k + m),
    decreases i,
{
    if i == 0 {
        return;
    }
    let j: nat = (i - 1) as nat;
    lemma_relaxed_run(lines, k, m, j);
    assert(lines.subrange(0, i as int).drop_last() =~= lines.subrange(0, j as int));
    assert(lines.subrange(0, i as int).last() == lines[j as int]);
    let jm: nat = j % 16;
    assert(jm < 16 && (jm + 1) % 16 == i % 16) by (nonlinear_arith)
        requires jm == j % 16, i == j + 1;
    lemma_next_state_at(jm);
    assert(fits(lines, j) <==> !(k - 1 <= j < k + m - 1));
    assert(seq![].push(k as usize) =~= seq![k as usize]);
}

/// In relaxed mode a single rejected line `k` (counting from 1), among lines that all
/// carry their expected fields, gives the error list `[k]`.
pub proof fn lemma_relaxed_single_error(text: Seq<char>, k: nat)
    requires
        1 <= k <= lines_of(text).len(),
        forall|j: nat| j < lines_of(text).len() ==> (#[trigger] fits(lines_of(text), j) <==> j != k - 1),
    ensures
        outcome(fresh(ParsingMode::Relaxed), text).1 == seq![k as usize],
{
    let lines = lines_of(text);
    lemma_relaxed_run(lines, k, 1, lines.len());
    assert(lines.subrange(0, lines.len() as int) =~= lines);
}

/// In relaxed mode two adjacent rejected lines `k` and `k + 1` (counting from 1), among lines
/// that all carry their expected fields, give one error entry: `[k]`.
pub proof fn lemma_relaxed_error_run(text: Seq<char>, k: nat)
    requires
        1 <= k,
        k + 1 <= lines_of(text).len(),
        forall|j: nat| j < lines_of(text).len() ==> (#[trigger] fits(lines_of(text), j) <==> (j != k - 1 && j != k)),
    ensures
        outcome(fresh(ParsingMode::Relaxed), text).1 == seq![k as usize],
{
    let lines = lines_of(text);
    lemma_relaxed_run(lines, k, 2, lines.len());
    assert(lines.subrange(0, lines.len() as int) =~= lines);
}

/// The error list holds line numbers of lines that were read, in strictly ascending order,
/// so at most one entry for each line.
pub proof fn lemma_errors_ascending(p: ParserView, lines: Seq<Seq<char>>)
    requires
        lines.len() <= usize::MAX,
    ensures
        forall|a: int, b: int|
            0 <= a < b < run(p, lines).errors.len() ==> run(p, lines).errors[a] < run(p, lines).errors[b],
        forall|a: int|
            0 <= a < run(p, lines).errors.len() ==> 1 <= #[trigger] run(p, lines).errors[a] <= lines.len(),
    decreases lines.len(),
{
    if lines.len() > 0 {
        let prev = lines.drop_last();
        lemma_errors_ascending(p, prev);
        let r0 = run(p, prev);
        let r1 = run(p, lines);
        assert(r1 == step(r0, lines.last(), lines.len()));
        if r1.errors.len() > r0.errors.len() {
            assert(r1.errors == r0.errors.push(lines.len() as usize));
            assert forall|a: int| 0 <= a < r0.errors.len() implies r0.errors[a] < lines.len() by {
                assert(r0.errors[a] <= prev.len());
            }
        } else {
            assert(r1.errors == r0.errors);
        }
    }
}

/// Two parsers that have read nothing and share a mode give the same outcome on the same text:
/// no state carries over between parsers.
pub proof fn lemma_fresh_parsers_agree(a: Parser, b: Parser, mode: ParsingMode, text: Seq<char>)
    requires
        a@ == fresh(mode),
        b@ == fresh(mode),
    ensures
        outcome(a@, text) == outcome(b@, text),
{
}

} // verus!
