//! Command descriptors and the tokenizer that produces them.
//!
//! One stage of a pipeline is a run of whitespace-separated tokens: the
//! first token names the program, the rest are its arguments.  The grammar
//! is fixed here by `tokens`: a token is a maximal run of non-whitespace
//! characters, and whitespace is a space, tab, carriage return or newline.

use vstd::prelude::*;
use vstd::string::StrSliceExecFns;

verus! {

/// The whitespace characters that separate tokens.
pub open spec fn is_space(c: char) -> bool {
    c == ' ' || c == '\t' || c == '\n' || c == '\r'
}

/// A partly built token, emitted only if it holds at least one character.
pub open spec fn flush(cur: Seq<char>) -> Seq<Seq<char>> {
    if cur.len() == 0 {
        Seq::empty()
    } else {
        seq![cur]
    }
}

/// The tokens of `s`, with `cur` the token under construction: characters
/// are consumed one at a time, whitespace closes the current token.
pub open spec fn tokens_from(s: Seq<char>, cur: Seq<char>) -> Seq<Seq<char>>
    decreases s.len(),
{
    if s.len() == 0 {
        flush(cur)
    } else if is_space(s[0]) {
        flush(cur) + tokens_from(s.skip(1), Seq::empty())
    } else {
        tokens_from(s.skip(1), cur.push(s[0]))
    }
}

/// The maximal runs of non-whitespace characters in `s`, in order.
pub open spec fn tokens(s: Seq<char>) -> Seq<Seq<char>> {
    tokens_from(s, Seq::empty())
}

/// What a proper token is: a non-empty run of non-whitespace characters.
pub open spec fn wf_token(t: Seq<char>) -> bool {
    t.len() > 0 && forall|k: int| 0 <= k < t.len() ==> !is_space(#[trigger] t[k])
}

proof fn lemma_tokens_from_wf(s: Seq<char>, cur: Seq<char>)
    requires
        forall|k: int| 0 <= k < cur.len() ==> !is_space(#[trigger] cur[k]),
    ensures
        forall|i: int| 0 <= i < tokens_from(s, cur).len() ==> wf_token(
            #[trigger] tokens_from(s, cur)[i],
        ),
    decreases s.len(),
{
    if s.len() == 0 {
        if cur.len() > 0 {
            assert(tokens_from(s, cur)[0] == cur);
            assert(wf_token(cur));
        }
    } else if is_space(s[0]) {
        lemma_tokens_from_wf(s.skip(1), Seq::empty());
        let rec = tokens_from(s.skip(1), Seq::<char>::empty());
        assert forall|i: int| 0 <= i < tokens_from(s, cur).len() implies wf_token(
            tokens_from(s, cur)[i],
        ) by {
            if cur.len() > 0 && i == 0 {
                assert(tokens_from(s, cur)[i] == cur);
                assert(wf_token(cur));
            } else {
                assert(tokens_from(s, cur)[i] == rec[i - flush(cur).len()]);
            }
        }
    } else {
        let grown = cur.push(s[0]);
        assert forall|k: int| 0 <= k < grown.len() implies !is_space(grown[k]) by {
            if k < cur.len() {
                assert(grown[k] == cur[k]);
            }
        }
        lemma_tokens_from_wf(s.skip(1), grown);
        assert forall|i: int| 0 <= i < tokens_from(s, cur).len() implies wf_token(
            tokens_from(s, cur)[i],
        ) by {
            assert(tokens_from(s, cur)[i] == tokens_from(s.skip(1), grown)[i]);
        }
    }
}

/// Law: every token of any text is a non-empty run of non-whitespace
/// characters — so the program name of a parsed descriptor is never the
/// empty string.
pub proof fn lemma_tokens_wf(s: Seq<char>)
    ensures
        forall|i: int| 0 <= i < tokens(s).len() ==> wf_token(#[trigger] tokens(s)[i]),
{
    lemma_tokens_from_wf(s, Seq::empty());
}

/// What a stage means once tokenized: program first, arguments after.
pub struct CommandView {
    pub program: Seq<char>,
    pub args: Seq<Seq<char>>,
}

/// The descriptor read from a stage with at least one token.
pub open spec fn stage_command(s: Seq<char>) -> CommandView {
    CommandView { program: tokens(s)[0], args: tokens(s).skip(1) }
}

/// Whether `c` is a whitespace separator.
pub fn is_space_char(c: char) -> (b: bool)
    ensures
        b == is_space(c),
{
    c == ' ' || c == '\t' || c == '\n' || c == '\r'
}

/// Splits `s` into its tokens, left to right.
pub fn tokenize(s: &str) -> (toks: Vec<String>)
    ensures
        toks.deep_view() == tokens(s@),
{
    let n = s.unicode_len();
    let mut toks: Vec<String> = Vec::new();
    let mut start: usize = 0;
    let mut i: usize = 0;
    proof {
        assert(s@.skip(0) =~= s@);
        assert(s@.subrange(0, 0) =~= Seq::<char>::empty());
        assert(toks.deep_view() =~= Seq::<Seq<char>>::empty());
        assert(tokens(s@) =~~= toks.deep_view() + tokens_from(s@.skip(0), s@.subrange(0, 0)));
    }
    while i < n
        invariant
            start <= i <= n,
            n == s@.len(),
            forall|k: int| start <= k < i ==> !is_space(s@[k]),
            tokens(s@) == toks.deep_view() + tokens_from(
                s@.skip(i as int),
                s@.subrange(start as int, i as int),
            ),
        decreases n - i,
    {
        let ghost cur = s@.subrange(start as int, i as int);
        let ghost rest = s@.skip(i as int);
        let c = s.get_char(i);
        if is_space_char(c) {
            proof {
                assert(rest[0] == s@[i as int]);
                assert(rest.skip(1) =~= s@.skip(i + 1));
                assert(tokens_from(rest, cur) == flush(cur) + tokens_from(
                    s@.skip(i + 1),
                    Seq::<char>::empty(),
                ));
            }
            if start < i {
                let ghost before = toks.deep_view();
                let tok = s.substring_char(start, i).to_owned();
                toks.push(tok);
                proof {
                    assert(toks.deep_view() =~= before.push(cur));
                    assert(before.push(cur) =~= before + seq![cur]);
                    assert(flush(cur) == seq![cur]);
                    assert(tokens(s@) =~~= toks.deep_view() + tokens_from(
                        s@.skip(i + 1),
                        Seq::<char>::empty(),
                    ));
                }
            } else {
                proof {
                    assert(cur =~= Seq::<char>::empty());
                    assert(flush(cur) =~= Seq::<Seq<char>>::empty());
                    assert(tokens(s@) =~~= toks.deep_view() + tokens_from(
                        s@.skip(i + 1),
                        Seq::<char>::empty(),
                    ));
                }
            }
            i = i + 1;
            start = i;
            proof {
                assert(s@.subrange(start as int, i as int) =~= Seq::<char>::empty());
            }
        } else {
            proof {
                assert(rest[0] == s@[i as int]);
                assert(rest.skip(1) =~= s@.skip(i + 1));
                assert(cur.push(s@[i as int]) =~= s@.subrange(start as int, i + 1));
                assert(tokens_from(rest, cur) == tokens_from(
                    s@.skip(i + 1),
                    s@.subrange(start as int, i + 1),
                ));
            }
            i = i + 1;
        }
    }
    proof {
        assert(s@.skip(n as int) =~= Seq::<char>::empty());
    }
    if start < n {
        let ghost before = toks.deep_view();
        let ghost cur = s@.subrange(start as int, n as int);
        let tok = s.substring_char(start, n).to_owned();
        toks.push(tok);
        proof {
            assert(toks.deep_view() =~= before.push(cur));
            assert(before.push(cur) =~= before + seq![cur]);
            assert(flush(cur) == seq![cur]);
            assert(tokens(s@) =~~= toks.deep_view());
        }
    } else {
        proof {
            assert(s@.subrange(start as int, n as int) =~= Seq::<char>::empty());
            assert(tokens(s@) =~~= toks.deep_view());
        }
    }
    toks
}

/// One stage of a pipeline: the program to run and its arguments, in order.
#[derive(Debug, Clone)]
pub struct ShellCommand {
    pub command: String,
    pub args: Vec<String>,
}

impl View for ShellCommand {
    type V = CommandView;

    open spec fn view(&self) -> CommandView {
        CommandView { program: self.command@, args: self.args.deep_view() }
    }
}

impl DeepView for ShellCommand {
    type V = CommandView;

    open spec fn deep_view(&self) -> CommandView {
        self.view()
    }
}

impl ShellCommand {
    /// Turns a non-empty token list into a descriptor: first token the
    /// program, the rest the arguments.
    fn from_tokens(toks: Vec<String>) -> (c: ShellCommand)
        requires
            toks@.len() > 0,
        ensures
            c@.program == toks.deep_view()[0],
            c@.args == toks.deep_view().skip(1),
    {
        let ghost whole = toks.deep_view();
        let mut rest = toks;
        let command = rest.remove(0);
        proof {
            assert forall|j: int| 0 <= j < rest.deep_view().len() implies rest.deep_view()[j]
                == whole[j + 1] by {}
            assert(rest.deep_view() =~= whole.skip(1));
        }
        ShellCommand { command, args: rest }
    }

    /// Reads the descriptor of a stage that holds at least one token.
    pub fn new(stage: &str) -> (c: ShellCommand)
        requires
            tokens(stage@).len() > 0,
        ensures
            c@ == stage_command(stage@),
            wf_token(c@.program),
    {
        let toks = tokenize(stage);
        proof {
            assert(toks.deep_view().len() == toks@.len());
            lemma_tokens_wf(stage@);
        }
        Self::from_tokens(toks)
    }

    /// Reads the descriptor of a stage, or nothing where the stage holds
    /// no token at all (it is empty or all whitespace).
    pub fn parse(stage: &str) -> (r: Option<ShellCommand>)
        ensures
            r is Some <==> tokens(stage@).len() > 0,
            r matches Some(c) ==> c@ == stage_command(stage@) && wf_token(c@.program),
    {
        let toks = tokenize(stage);
        proof {
            assert(toks.deep_view().len() == toks@.len());
            lemma_tokens_wf(stage@);
        }
        if toks.len() == 0 {
            None
        } else {
            Some(Self::from_tokens(toks))
        }
    }
}

} // verus!
