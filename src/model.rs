use vstd::prelude::*;
use crate::draw::random_below;

verus! {

/// The kind of a drawing instruction.
#[derive(Debug, Clone, Copy, PartialEq, Eq, Structural)]
pub enum CommandType {
    Move,
    LineTo,
}

/// The error of compiling a `regex::Regex`, carried unopened in `PathError`.
#[verifier::external_type_specification]
#[verifier::external_body]
pub struct ExRegexError(regex::Error);

/// Why a path or a captcha could not be made.
#[derive(Debug)]
pub enum PathError {
    /// Path text with an unsupported command or a malformed number.
    ParseError,
    /// The path pattern did not compile.
    RegexError(regex::Error),
    /// A catch-all that no operation of the library returns.
    Unknown,
    /// Too few colors, or an answer length of zero.
    ConfigError,
}

impl CommandType {
    /// The command letter of a path token: `M` for a move, `L` for a line-to;
    /// any other text is a `ParseError`.
    pub fn from_letter(letter: &str) -> (r: Result<CommandType, PathError>)
        ensures
            letter@ == seq!['M'] ==> r matches Ok(CommandType::Move),
            letter@ == seq!['L'] ==> r matches Ok(CommandType::LineTo),
            letter@ != seq!['M'] && letter@ != seq!['L'] ==> r matches Err(PathError::ParseError),
    {
        if letter.unicode_len() == 1 {
            let c = letter.get_char(0);
            if c == 'M' {
                assert(letter@ == seq!['M']);
                return Ok(CommandType::Move);
            } else if c == 'L' {
                assert(letter@ == seq!['L']);
                return Ok(CommandType::LineTo);
            }
        }
        Err(PathError::ParseError)
    }
}

/// Smallest run-length limit drawn while fragmenting a stroke.
pub const MIN_RUN: usize = 2;

/// Largest run-length limit drawn while fragmenting a stroke.
pub const MAX_RUN: usize = 4;

/// Indices, in order, of the line-to commands among the first `n` kinds.
pub open spec fn line_indices(kinds: Seq<CommandType>, n: nat) -> Seq<usize>
    decreases n,
{
    if n == 0 {
        Seq::empty()
    } else {
        let prev = line_indices(kinds, (n - 1) as nat);
        if kinds[n - 1] == CommandType::LineTo {
            prev.push((n - 1) as usize)
        } else {
            prev
        }
    }
}

/// The commands of each run after its leading move, all runs concatenated.
pub open spec fn run_tails(runs: Seq<Seq<usize>>) -> Seq<usize>
    decreases runs.len(),
{
    if runs.len() == 0 {
        Seq::empty()
    } else {
        run_tails(runs.drop_last()) + runs.last().drop_first()
    }
}

/// What every fragmentation of a stroke of `n` commands satisfies: each run is
/// drawable (at least two commands), no longer than a limit plus its closing
/// line, refers only to commands of the stroke, and the line-to commands,
/// leading moves aside, come out exactly once each and in their order.
pub open spec fn is_fragmentation(kinds: Seq<CommandType>, runs: Seq<Seq<usize>>) -> bool {
    &&& runs_bounded(kinds.len(), runs)
    &&& run_tails(runs) == line_indices(kinds, kinds.len())
}

/// Each run holds between two and `MAX_RUN + 1` indices, all below `n`.
pub open spec fn runs_bounded(n: nat, runs: Seq<Seq<usize>>) -> bool {
    &&& forall|j: int| 0 <= j < runs.len() ==> 2 <= #[trigger] runs[j].len() <= MAX_RUN + 1
    &&& forall|j: int, k: int|
        0 <= j < runs.len() && 0 <= k < runs[j].len() ==> #[trigger] runs[j][k] < n
}

/// The state of the fragmentation scan: the runs emitted so far, the run being
/// gathered, the index its leading move stands at, and how many runs were closed.
pub type SplitState = (Seq<Seq<usize>>, Seq<usize>, usize, int);

/// One step of the scan over command `i`. A run is closed when it has reached
/// its limit or the command is a move; a closing line-to joins the run first,
/// and only runs of two or more commands are kept. The next run starts with a
/// move at the closing command. Otherwise the command joins the run, which is
/// opened by the pending leading move if it was empty.
pub open spec fn split_step(kinds: Seq<CommandType>, limits: Seq<usize>, st: SplitState, i: int) -> SplitState {
    let (runs, buf, start, closed) = st;
    if buf.len() >= limits[closed] || kinds[i] == CommandType::Move {
        let last = if kinds[i] == CommandType::LineTo {
            buf.push(i as usize)
        } else {
            buf
        };
        let kept = if last.len() > 1 {
            runs.push(last)
        } else {
            runs
        };
        (kept, Seq::empty(), i as usize, closed + 1)
    } else {
        let opened = if buf.len() == 0 {
            seq![start]
        } else {
            buf
        };
        (runs, opened.push(i as usize), start, closed)
    }
}

/// The scan state after the first `n` commands.
pub open spec fn split_state(kinds: Seq<CommandType>, limits: Seq<usize>, n: nat) -> SplitState
    decreases n,
{
    if n == 0 {
        (Seq::empty(), Seq::empty(), 0, 0)
    } else {
        split_step(kinds, limits, split_state(kinds, limits, (n - 1) as nat), n - 1)
    }
}

/// The runs of a stroke split with the given limits: the scan's runs and its
/// last run, if that has two or more commands.
pub open spec fn split_of(kinds: Seq<CommandType>, limits: Seq<usize>) -> Seq<Seq<usize>> {
    let (runs, buf, _, _) = split_state(kinds, limits, kinds.len());
    if buf.len() > 1 {
        runs.push(buf)
    } else {
        runs
    }
}

/// Each run's leading move stands at the command just before its first
/// line-to; a stroke that begins with a line-to starts its first run there.
pub open spec fn moves_precede(runs: Seq<Seq<usize>>) -> bool {
    forall|j: int|
        0 <= j < runs.len() && #[trigger] runs[j].len() >= 2 ==> runs[j][0] + 1 == runs[j][1] || (
        runs[j][0] == 0 && runs[j][1] == 0)
}

/// The view of a list of runs.
pub open spec fn runs_view(runs: Seq<Vec<usize>>) -> Seq<Seq<usize>> {
    runs.map_values(|r: Vec<usize>| r@)
}

proof fn lemma_tails_push(runs: Seq<Seq<usize>>, r: Seq<usize>)
    ensures
        run_tails(runs.push(r)) == run_tails(runs) + r.drop_first(),
{
    assert(runs.push(r).drop_last() == runs);
}

/// Splits a stroke, given by the kinds of its commands, into runs of command
/// indices. The first index of a run stands for a move to that command's point;
/// the others are line-to commands drawn as they are. `limits[j]` is the length
/// at which the `j`-th run is closed.
pub fn split_runs(kinds: &Vec<CommandType>, limits: &Vec<usize>) -> (runs: Vec<Vec<usize>>)
    requires
        limits@.len() > kinds@.len(),
        forall|j: int| 0 <= j < limits@.len() ==> MIN_RUN <= #[trigger] limits@[j] <= MAX_RUN,
    ensures
        runs_view(runs@) == split_of(kinds@, limits@),
        is_fragmentation(kinds@, runs_view(runs@)),
        moves_precede(runs_view(runs@)),
{
    let n = kinds.len();
    let mut runs: Vec<Vec<usize>> = Vec::new();
    let mut buf: Vec<usize> = Vec::new();
    let mut li: usize = 0;
    let mut start: usize = 0;
    let mut i: usize = 0;
    while i < n
        invariant
            n == kinds@.len(),
            limits@.len() > n,
            forall|j: int| 0 <= j < limits@.len() ==> MIN_RUN <= #[trigger] limits@[j] <= MAX_RUN,
            i <= n,
            li <= i,
            start < n || n == 0,
            buf@.len() != 1,
            buf@.len() <= limits@[li as int],
            forall|k: int| 0 <= k < buf@.len() ==> #[trigger] buf@[k] < n,
            runs_bounded(n as nat, runs_view(runs@)),
            moves_precede(runs_view(runs@)),
            (runs_view(runs@), buf@, start, li as int) == split_state(kinds@, limits@, i as nat),
            buf@.len() == 0 ==> start + 1 == i || (start == 0 && i == 0),
            buf@.len() >= 2 ==> buf@[0] + 1 == buf@[1] || (buf@[0] == 0 && buf@[1] == 0),
            buf@.len() == 0 ==> run_tails(runs_view(runs@)) == line_indices(kinds@, i as nat),
            buf@.len() > 0 ==> run_tails(runs_view(runs@)) + buf@.drop_first() == line_indices(
                kinds@,
                i as nat,
            ),
        decreases n - i,
    {
        let limit = limits[li];
        let kind = kinds[i];
        if buf.len() >= limit || kind == CommandType::Move {
            if kind == CommandType::LineTo {
                let ghost old_buf = buf@;
                buf.push(i);
                assert(buf@.drop_first() == old_buf.drop_first().push(i));
            }
            if buf.len() > 1 {
                let ghost before = runs_view(runs@);
                runs.push(buf);
                proof {
                    assert(runs_view(runs@) == before.push(buf@));
                    lemma_tails_push(before, buf@);
                }
            }
            buf = Vec::new();
            start = i;
            li = li + 1;
        } else {
            let ghost old_buf = buf@;
            if buf.len() == 0 {
                buf.push(start);
            }
            buf.push(i);
            proof {
                if old_buf.len() == 0 {
                    assert(buf@.drop_first() == seq![i]);
                } else {
                    assert(buf@.drop_first() == old_buf.drop_first().push(i));
                }
            }
        }
        i = i + 1;
    }
    if buf.len() > 1 {
        let ghost before = runs_view(runs@);
        runs.push(buf);
        proof {
            assert(runs_view(runs@) == before.push(buf@));
            lemma_tails_push(before, buf@);
        }
    }
    runs
}

/// Splits a stroke as `split_runs` does, with each run's limit drawn
/// uniformly from `MIN_RUN..=MAX_RUN`.
pub fn random_split_runs(kinds: &Vec<CommandType>) -> (runs: Vec<Vec<usize>>)
    requires
        kinds@.len() < usize::MAX,
    ensures
        exists|limits: Seq<usize>|
            limits.len() > kinds@.len() && (forall|j: int|
                0 <= j < limits.len() ==> MIN_RUN <= #[trigger] limits[j] <= MAX_RUN)
                && runs_view(runs@) == #[trigger] split_of(kinds@, limits),
        is_fragmentation(kinds@, runs_view(runs@)),
        moves_precede(runs_view(runs@)),
{
    let count = kinds.len() + 1;
    let mut limits: Vec<usize> = Vec::new();
    while limits.len() < count
        invariant
            limits@.len() <= count,
            forall|j: int| 0 <= j < limits@.len() ==> MIN_RUN <= #[trigger] limits@[j] <= MAX_RUN,
        decreases count - limits@.len(),
    {
        let d = random_below(MAX_RUN - MIN_RUN + 1);
        limits.push(MIN_RUN + d);
    }
    split_runs(kinds, &limits)
}

} // verus!
