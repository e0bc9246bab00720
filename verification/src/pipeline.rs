//! The pipeline builder: one line of text in, an ordered sequence of
//! command descriptors out.
//!
//! The line is trimmed of surrounding whitespace, split on the literal
//! three-character separator `" | "` (leftmost first, never overlapping),
//! and each stage substring is tokenized.  A stage without a single token
//! (an empty line, or a doubled separator as in `"a |  | b"`) is a parse
//! error, never a crash.

use vstd::prelude::*;
use vstd::string::StrSliceExecFns;
use vstd::string::StringExecFns;
use crate::command::is_space;
use crate::command::is_space_char;
use crate::command::lemma_tokens_wf;
use crate::command::tokens;
use crate::command::wf_token;
use crate::command::stage_command;
use crate::command::CommandView;
use crate::command::ShellCommand;

verus! {

/// Whether the pipe separator `" | "` stands at position `i` of `s`.
pub open spec fn sep_at(s: Seq<char>, i: int) -> bool {
    &&& 0 <= i
    &&& i + 3 <= s.len()
    &&& s[i] == ' '
    &&& s[i + 1] == '|'
    &&& s[i + 2] == ' '
}

/// Splits `s` on the pipe separator, consuming occurrences leftmost first
/// and never overlapping; `cur` is the stage under construction.
pub open spec fn split_from(s: Seq<char>, cur: Seq<char>) -> Seq<Seq<char>>
    decreases s.len(),
{
    if s.len() == 0 {
        seq![cur]
    } else if sep_at(s, 0) {
        seq![cur] + split_from(s.skip(3), Seq::empty())
    } else {
        split_from(s.skip(1), cur.push(s[0]))
    }
}

/// The stage substrings of `s`, split on `" | "` left to right.
pub open spec fn split_stages(s: Seq<char>) -> Seq<Seq<char>> {
    split_from(s, Seq::empty())
}

/// How many pipe separators `s` holds, counted as the split consumes them:
/// leftmost first, never overlapping.
pub open spec fn sep_count(s: Seq<char>) -> nat
    decreases s.len(),
{
    if s.len() == 0 {
        0
    } else if sep_at(s, 0) {
        1 + sep_count(s.skip(3))
    } else {
        sep_count(s.skip(1))
    }
}

/// `s` without its leading whitespace.
pub open spec fn trim_start(s: Seq<char>) -> Seq<char>
    decreases s.len(),
{
    if s.len() > 0 && is_space(s[0]) {
        trim_start(s.skip(1))
    } else {
        s
    }
}

/// `s` without its trailing whitespace.
pub open spec fn trim_end(s: Seq<char>) -> Seq<char>
    decreases s.len(),
{
    if s.len() > 0 && is_space(s[s.len() - 1]) {
        trim_end(s.take(s.len() - 1))
    } else {
        s
    }
}

/// `s` without leading and trailing whitespace.
pub open spec fn trimmed(s: Seq<char>) -> Seq<char> {
    trim_end(trim_start(s))
}

proof fn lemma_trim_start_at(s: Seq<char>, lo: int)
    requires
        0 <= lo <= s.len(),
        forall|k: int| 0 <= k < lo ==> is_space(s[k]),
        lo == s.len() || !is_space(s[lo]),
    ensures
        trim_start(s) == s.skip(lo),
    decreases lo,
{
    if lo == 0 {
        assert(s.skip(0) =~= s);
    } else {
        let t = s.skip(1);
        assert forall|k: int| 0 <= k < lo - 1 implies is_space(t[k]) by {
            assert(t[k] == s[k + 1]);
        }
        lemma_trim_start_at(t, lo - 1);
        assert(t.skip(lo - 1) =~= s.skip(lo));
    }
}

proof fn lemma_trim_end_at(s: Seq<char>, hi: int)
    requires
        0 <= hi <= s.len(),
        forall|k: int| hi <= k < s.len() ==> is_space(s[k]),
        hi == 0 || !is_space(s[hi - 1]),
    ensures
        trim_end(s) == s.take(hi),
    decreases s.len() - hi,
{
    if hi == s.len() {
        assert(s.take(hi) =~= s);
    } else {
        let t = s.take(s.len() - 1);
        assert(is_space(s[s.len() - 1]));
        assert forall|k: int| hi <= k < t.len() implies is_space(t[k]) by {
            assert(t[k] == s[k]);
        }
        lemma_trim_end_at(t, hi);
        assert(t.take(hi) =~= s.take(hi));
    }
}

/// Strips leading and trailing whitespace from `s`.
pub fn trim_str<'a>(s: &'a str) -> (r: &'a str)
    ensures
        r@ == trimmed(s@),
{
    let n = s.unicode_len();
    let mut lo: usize = 0;
    while lo < n && is_space_char(s.get_char(lo))
        invariant
            lo <= n,
            n == s@.len(),
            forall|k: int| 0 <= k < lo ==> is_space(s@[k]),
        decreases n - lo,
    {
        lo = lo + 1;
    }
    let mut hi: usize = n;
    while hi > lo && is_space_char(s.get_char(hi - 1))
        invariant
            lo <= hi <= n,
            n == s@.len(),
            forall|k: int| 0 <= k < lo ==> is_space(s@[k]),
            lo == n || !is_space(s@[lo as int]),
            forall|k: int| hi <= k < n ==> is_space(s@[k]),
        decreases hi,
    {
        hi = hi - 1;
    }
    proof {
        lemma_trim_start_at(s@, lo as int);
        let t = s@.skip(lo as int);
        assert forall|k: int| hi - lo <= k < t.len() implies is_space(t[k]) by {
            assert(t[k] == s@[k + lo]);
        }
        if hi > lo {
            assert(t[hi - lo - 1] == s@[hi - 1]);
        }
        lemma_trim_end_at(t, hi - lo);
        assert(t.take(hi - lo) =~= s@.subrange(lo as int, hi as int));
    }
    s.substring_char(lo, hi)
}

/// Splits `s` into its stage substrings on the `" | "` separator.
pub fn split_line(s: &str) -> (stages: Vec<String>)
    ensures
        stages.deep_view() == split_stages(s@),
{
    let n = s.unicode_len();
    let mut stages: Vec<String> = Vec::new();
    let mut start: usize = 0;
    let mut i: usize = 0;
    proof {
        assert(s@.skip(0) =~= s@);
        assert(s@.subrange(0, 0) =~= Seq::<char>::empty());
        assert(stages.deep_view() =~= Seq::<Seq<char>>::empty());
        assert(split_stages(s@) =~~= stages.deep_view() + split_from(s@.skip(0), s@.subrange(0, 0)));
    }
    while i < n
        invariant
            start <= i <= n,
            n == s@.len(),
            split_stages(s@) == stages.deep_view() + split_from(
                s@.skip(i as int),
                s@.subrange(start as int, i as int),
            ),
        decreases n - i,
    {
        let ghost cur = s@.subrange(start as int, i as int);
        let ghost rest = s@.skip(i as int);
        let is_sep = n - i > 2 && s.get_char(i) == ' ' && s.get_char(i + 1) == '|' && s.get_char(
            i + 2,
        ) == ' ';
        proof {
            assert(rest.len() == n - i);
            assert(rest[0] == s@[i as int]);
            if n - i > 2 {
                assert(rest[1] == s@[i + 1]);
                assert(rest[2] == s@[i + 2]);
            }
            assert(is_sep == sep_at(rest, 0));
        }
        if is_sep {
            let ghost before = stages.deep_view();
            let stage = s.substring_char(start, i).to_owned();
            stages.push(stage);
            proof {
                assert(split_from(rest, cur) == seq![cur] + split_from(
                    rest.skip(3),
                    Seq::<char>::empty(),
                ));
                assert(rest.skip(3) =~= s@.skip(i + 3));
                assert(stages.deep_view() =~= before.push(cur));
                assert(before.push(cur) =~= before + seq![cur]);
                assert(split_stages(s@) =~~= stages.deep_view() + split_from(
                    s@.skip(i + 3),
                    Seq::<char>::empty(),
                ));
                assert(s@.subrange(i + 3, i + 3) =~= Seq::<char>::empty());
            }
            i = i + 3;
            start = i;
        } else {
            proof {
                assert(split_from(rest, cur) == split_from(rest.skip(1), cur.push(rest[0])));
                assert(rest.skip(1) =~= s@.skip(i + 1));
                assert(cur.push(s@[i as int]) =~= s@.subrange(start as int, i + 1));
            }
            i = i + 1;
        }
    }
    let ghost before = stages.deep_view();
    let ghost cur = s@.subrange(start as int, n as int);
    let last = s.substring_char(start, n).to_owned();
    stages.push(last);
    proof {
        assert(s@.skip(n as int) =~= Seq::<char>::empty());
        assert(split_from(s@.skip(n as int), cur) == seq![cur]);
        assert(stages.deep_view() =~= before.push(cur));
        assert(before.push(cur) =~= before + seq![cur]);
        assert(stages.deep_view() =~~= split_stages(s@));
    }
    stages
}

/// The stage substrings of a raw input line: the line is trimmed first
/// and split on the pipe separator after.
pub open spec fn stages_of(line: Seq<char>) -> Seq<Seq<char>> {
    split_stages(trimmed(line))
}

/// Whether every stage of the line holds at least one token.
pub open spec fn line_ok(line: Seq<char>) -> bool {
    forall|i: int| 0 <= i < stages_of(line).len() ==> tokens(#[trigger] stages_of(line)[i]).len()
        > 0
}

/// The descriptors of a well-formed line, in input order.
pub open spec fn parsed_line(line: Seq<char>) -> Seq<CommandView> {
    stages_of(line).map_values(|st: Seq<char>| stage_command(st))
}

/// Why a line was rejected by the pipeline builder.
#[derive(Debug, Clone, Copy, PartialEq, Eq)]
pub enum ParseError {
    /// A stage holds no program token: the line is empty, all whitespace,
    /// or has a doubled separator.
    EmptyStage,
}

impl ParseError {
    /// The report a user sees for this error.
    pub fn message(&self) -> (m: String)
        ensures
            m@ == "a pipeline stage has no program token"@,
    {
        String::from_str("a pipeline stage has no program token")
    }
}

/// Builds the pipeline a line of input describes: one descriptor per
/// stage, in left-to-right order.  A line with a stage that holds no
/// program token is rejected, and accepted otherwise.  An accepted
/// pipeline has at least one stage, and no stage's program is empty.
pub fn parse_line(line: &str) -> (r: Result<Vec<ShellCommand>, ParseError>)
    ensures
        r is Ok <==> line_ok(line@),
        r matches Ok(cmds) ==> cmds.deep_view() == parsed_line(line@),
        r matches Ok(cmds) ==> cmds@.len() > 0,
        r matches Ok(cmds) ==> forall|i: int| 0 <= i < parsed_line(line@).len() ==> wf_token(
            (#[trigger] parsed_line(line@)[i]).program,
        ),
        r matches Err(e) ==> e == ParseError::EmptyStage,
{
    let t = trim_str(line);
    let stages = split_line(t);
    let mut cmds: Vec<ShellCommand> = Vec::new();
    let mut k: usize = 0;
    proof {
        assert(cmds.deep_view() =~= parsed_line(line@).take(0));
    }
    while k < stages.len()
        invariant
            k <= stages@.len(),
            stages.deep_view() == stages_of(line@),
            cmds.deep_view() == parsed_line(line@).take(k as int),
            forall|j: int| 0 <= j < k ==> tokens(#[trigger] stages_of(line@)[j]).len() > 0,
        decreases stages@.len() - k,
    {
        proof {
            assert(stages.deep_view()[k as int] == stages@[k as int]@);
        }
        let ghost before = cmds.deep_view();
        match ShellCommand::parse(stages[k].as_str()) {
            Some(c) => {
                cmds.push(c);
                proof {
                    assert(parsed_line(line@)[k as int] == stage_command(stages_of(line@)[k as int]));
                    assert(cmds.deep_view() =~= before.push(c@));
                    assert(cmds.deep_view() =~= parsed_line(line@).take(k + 1));
                }
            },
            None => {
                proof {
                    assert(tokens(stages_of(line@)[k as int]).len() == 0);
                }
                return Err(ParseError::EmptyStage);
            },
        }
        k = k + 1;
    }
    proof {
        assert(stages.deep_view().len() == stages@.len());
        assert(parsed_line(line@).len() == stages_of(line@).len());
        assert(cmds.deep_view() =~= parsed_line(line@));
        lemma_split_from_count(trimmed(line@), Seq::empty());
        assert forall|i: int| 0 <= i < parsed_line(line@).len() implies wf_token(
            parsed_line(line@)[i].program,
        ) by {
            lemma_tokens_wf(stages_of(line@)[i]);
            assert(parsed_line(line@)[i] == stage_command(stages_of(line@)[i]));
        }
    }
    Ok(cmds)
}

/// Whether the pipe separator occurs nowhere in `s`.
pub open spec fn no_sep(s: Seq<char>) -> bool {
    forall|i: int| !sep_at(s, i)
}

proof fn lemma_split_from_no_sep(s: Seq<char>, cur: Seq<char>)
    requires
        no_sep(s),
    ensures
        split_from(s, cur) == seq![cur + s],
    decreases s.len(),
{
    if s.len() == 0 {
        assert(cur + s =~= cur);
        assert(seq![cur + s] =~~= seq![cur]);
    } else {
        assert(!sep_at(s, 0));
        let t = s.skip(1);
        assert forall|i: int| !sep_at(t, i) by {
            if sep_at(t, i) {
                assert(t[i] == s[i + 1]);
                assert(t[i + 1] == s[i + 2]);
                assert(t[i + 2] == s[i + 3]);
                assert(sep_at(s, i + 1));
            }
        }
        lemma_split_from_no_sep(t, cur.push(s[0]));
        assert(cur.push(s[0]) + t =~= cur + s);
    }
}

proof fn lemma_split_from_count(s: Seq<char>, cur: Seq<char>)
    ensures
        split_from(s, cur).len() == sep_count(s) + 1,
    decreases s.len(),
{
    if s.len() == 0 {
    } else if sep_at(s, 0) {
        lemma_split_from_count(s.skip(3), Seq::empty());
    } else {
        lemma_split_from_count(s.skip(1), cur.push(s[0]));
    }
}

/// Law: a line whose trimmed text holds no pipe separator and at least one
/// token parses to exactly one descriptor, whose program is the first
/// token and whose arguments are the remaining tokens, in order.
pub proof fn lemma_single_stage(line: Seq<char>)
    requires
        no_sep(trimmed(line)),
        tokens(trimmed(line)).len() > 0,
    ensures
        line_ok(line),
        parsed_line(line).len() == 1,
        parsed_line(line)[0].program == tokens(trimmed(line))[0],
        parsed_line(line)[0].args == tokens(trimmed(line)).skip(1),
{
    lemma_split_from_no_sep(trimmed(line), Seq::empty());
    assert(Seq::<char>::empty() + trimmed(line) =~= trimmed(line));
    assert(stages_of(line) =~~= seq![trimmed(line)]);
    assert(stages_of(line)[0] == trimmed(line));
    assert(parsed_line(line)[0] == stage_command(trimmed(line)));
}

/// Law: a line whose trimmed text holds `n` pipe separators (counted as
/// the split consumes them, leftmost first and never overlapping) parses
/// to exactly `n + 1` descriptors, and the descriptor at position `i` is
/// read from the stage substring at position `i`, left to right.
pub proof fn lemma_stage_count(line: Seq<char>)
    ensures
        parsed_line(line).len() == sep_count(trimmed(line)) + 1,
        forall|i: int| 0 <= i < parsed_line(line).len() ==> #[trigger] parsed_line(line)[i]
            == stage_command(stages_of(line)[i]),
{
    lemma_split_from_count(trimmed(line), Seq::empty());
}

} // verus!
