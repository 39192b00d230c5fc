use vstd::prelude::*;
use vstd::string::StringExecFns;

use crate::error::{MyError, MyErrorView};
use crate::text::{chars_of, is_white_space, is_whitespace, push_char};

verus! {

/// Where the tokenizer stands between two characters.
#[derive(Debug, Clone, Copy, PartialEq, Eq)]
pub enum State {
    Whitespace,
    Backslash,
    Unquoted,
    UnquotedBackslash,
    SingleQuoted,
    DoubleQuoted,
    DoubleQuotedBackslash,
    SquareBracket,
    SquareBracketBackslash,
}

/// The views of a list of strings.
pub open spec fn views(v: Seq<String>) -> Seq<Seq<char>> {
    v.map_values(|s: String| s@)
}

/// One character of input: the next state, the token being built and the tokens so far.
pub open spec fn step(
    state: State,
    c: char,
    cur: Seq<char>,
    tokens: Seq<Seq<char>>,
) -> (State, Seq<char>, Seq<Seq<char>>) {
    match state {
        State::Whitespace => if c == '\'' {
            (State::SingleQuoted, cur, tokens)
        } else if c == '"' {
            (State::DoubleQuoted, cur, tokens)
        } else if c == '\\' {
            (State::Backslash, cur, tokens)
        } else if c == '[' {
            (State::SquareBracket, cur, tokens)
        } else if is_white_space(c) {
            (State::Whitespace, cur, tokens)
        } else {
            (State::Unquoted, cur.push(c), tokens)
        },
        State::Backslash => if c == '\n' {
            (State::Whitespace, cur, tokens)
        } else {
            (State::Unquoted, cur.push(c), tokens)
        },
        State::Unquoted => if c == '\'' {
            (State::SingleQuoted, cur, tokens)
        } else if c == '"' {
            (State::DoubleQuoted, cur, tokens)
        } else if c == '\\' {
            (State::UnquotedBackslash, cur, tokens)
        } else if is_white_space(c) {
            (State::Whitespace, Seq::empty(), tokens.push(cur))
        } else {
            (State::Unquoted, cur.push(c), tokens)
        },
        State::UnquotedBackslash => if c == '\n' {
            (State::Unquoted, cur, tokens)
        } else {
            (State::Unquoted, cur.push(c), tokens)
        },
        State::SingleQuoted => if c == '\'' {
            (State::Unquoted, cur, tokens)
        } else {
            (State::SingleQuoted, cur.push(c), tokens)
        },
        State::DoubleQuoted => if c == '"' {
            (State::Unquoted, cur, tokens)
        } else if c == '\\' {
            (State::DoubleQuotedBackslash, cur, tokens)
        } else {
            (State::DoubleQuoted, cur.push(c), tokens)
        },
        State::DoubleQuotedBackslash => if c == '\n' {
            (State::DoubleQuoted, cur, tokens)
        } else if c == '$' || c == '`' || c == '"' || c == '\\' {
            (State::DoubleQuoted, cur.push(c), tokens)
        } else {
            (State::DoubleQuoted, cur.push('\\').push(c), tokens)
        },
        State::SquareBracket => if c == ']' {
            (State::Unquoted, cur, tokens)
        } else if c == '\\' {
            (State::SquareBracketBackslash, cur, tokens)
        } else {
            (State::SquareBracket, cur.push(c), tokens)
        },
        State::SquareBracketBackslash => if c == ']' || c == '\\' {
            (State::SquareBracket, cur.push(c), tokens)
        } else {
            (State::SquareBracket, cur.push('\\').push(c), tokens)
        },
    }
}

/// The end of the input: the tokens, or the description of what was left open.
pub open spec fn finish(state: State, cur: Seq<char>, tokens: Seq<Seq<char>>) -> Result<
    Seq<Seq<char>>,
    Seq<char>,
> {
    match state {
        State::Whitespace => Ok(tokens),
        State::Backslash => Ok(tokens.push(cur.push('\\'))),
        State::Unquoted => Ok(tokens.push(cur)),
        State::UnquotedBackslash => Ok(tokens.push(cur.push('\\'))),
        State::SingleQuoted => Err("Unclosed single quote"@),
        State::DoubleQuoted => Err("Unclosed double quote"@),
        State::DoubleQuotedBackslash => Err("Unclosed double quote"@),
        State::SquareBracket => Err("Unclosed square bracket"@),
        State::SquareBracketBackslash => Err("Unclosed square bracket"@),
    }
}

/// The tokenizer run over `input` from the given state.
pub open spec fn run(input: Seq<char>, state: State, cur: Seq<char>, tokens: Seq<Seq<char>>) -> Result<
    Seq<Seq<char>>,
    Seq<char>,
>
    decreases input.len(),
{
    if input.len() == 0 {
        finish(state, cur, tokens)
    } else {
        let (s, c, t) = step(state, input[0], cur, tokens);
        run(input.drop_first(), s, c, t)
    }
}

/// The tokens of `input`, or the description of the syntax error.
pub open spec fn tokens_of(input: Seq<char>) -> Result<Seq<Seq<char>>, Seq<char>> {
    run(input, State::Whitespace, Seq::empty(), Seq::empty())
}

fn take_token(cur: &mut String) -> (r: String)
    ensures
        r@ == old(cur)@,
        final(cur)@ == Seq::<char>::empty(),
{
    let mut r = String::new();
    std::mem::swap(&mut r, cur);
    r
}

/// Splits a request line into words, shell-style:
/// - words are separated by whitespace,
/// - a string in quotes or in square brackets is one contiguous word,
/// - inside double quotes `"` and `\` are written `\"` and `\\`,
/// - inside square brackets `]` and `\` are written `\]` and `\\`.
pub fn tokenize(s: &str) -> (r: Result<Vec<String>, MyError>)
    ensures
        match tokens_of(s@) {
            Ok(t) => r matches Ok(v) && views(v@) == t,
            Err(msg) => r matches Err(e) && e@ == MyErrorView::Syntax(msg),
        },
{
    let input = chars_of(s);
    let n = input.len();
    let mut tokens: Vec<String> = Vec::new();
    let mut cur = String::new();
    let mut state = State::Whitespace;
    let mut i: usize = 0;
    assert(input@.skip(0) =~= input@);
    assert(views(tokens@) =~= Seq::<Seq<char>>::empty());
    while i < n
        invariant
            n == input@.len(),
            i <= n,
            input@ == s@,
            run(input@.skip(i as int), state, cur@, views(tokens@)) == tokens_of(s@),
        decreases n - i,
    {
        let c = input[i];
        let ghost t0 = views(tokens@);
        proof {
            assert(input@.skip(i as int)[0] == c);
            assert(input@.skip(i as int).drop_first() =~= input@.skip(i + 1));
        }
        state = match state {
            State::Whitespace => {
                if c == '\'' {
                    State::SingleQuoted
                } else if c == '"' {
                    State::DoubleQuoted
                } else if c == '\\' {
                    State::Backslash
                } else if c == '[' {
                    State::SquareBracket
                } else if is_whitespace(c) {
                    State::Whitespace
                } else {
                    push_char(&mut cur, c);
                    State::Unquoted
                }
            },
            State::Backslash => {
                if c == '\n' {
                    State::Whitespace
                } else {
                    push_char(&mut cur, c);
                    State::Unquoted
                }
            },
            State::Unquoted => {
                if c == '\'' {
                    State::SingleQuoted
                } else if c == '"' {
                    State::DoubleQuoted
                } else if c == '\\' {
                    State::UnquotedBackslash
                } else if is_whitespace(c) {
                    let t = take_token(&mut cur);
                    tokens.push(t);
                    assert(views(tokens@) =~= t0.push(t@));
                    State::Whitespace
                } else {
                    push_char(&mut cur, c);
                    State::Unquoted
                }
            },
            State::UnquotedBackslash => {
                if c != '\n' {
                    push_char(&mut cur, c);
                }
                State::Unquoted
            },
            State::SingleQuoted => {
                if c == '\'' {
                    State::Unquoted
                } else {
                    push_char(&mut cur, c);
                    State::SingleQuoted
                }
            },
            State::DoubleQuoted => {
                if c == '"' {
                    State::Unquoted
                } else if c == '\\' {
                    State::DoubleQuotedBackslash
                } else {
                    push_char(&mut cur, c);
                    State::DoubleQuoted
                }
            },
            State::DoubleQuotedBackslash => {
                if c == '\n' {
                    State::DoubleQuoted
                } else if c == '$' || c == '`' || c == '"' || c == '\\' {
                    push_char(&mut cur, c);
                    State::DoubleQuoted
                } else {
                    push_char(&mut cur, '\\');
                    push_char(&mut cur, c);
                    State::DoubleQuoted
                }
            },
            State::SquareBracket => {
                if c == ']' {
                    State::Unquoted
                } else if c == '\\' {
                    State::SquareBracketBackslash
                } else {
                    push_char(&mut cur, c);
                    State::SquareBracket
                }
            },
            State::SquareBracketBackslash => {
                if c == ']' || c == '\\' {
                    push_char(&mut cur, c);
                } else {
                    push_char(&mut cur, '\\');
                    push_char(&mut cur, c);
                }
                State::SquareBracket
            },
        };
        i = i + 1;
    }
    proof {
        assert(input@.skip(n as int).len() == 0);
    }
    match state {
        State::Whitespace => Ok(tokens),
        State::Backslash | State::UnquotedBackslash => {
            let ghost t0 = views(tokens@);
            push_char(&mut cur, '\\');
            tokens.push(cur);
            assert(views(tokens@) =~= t0.push(cur@));
            Ok(tokens)
        },
        State::Unquoted => {
            let ghost t0 = views(tokens@);
            tokens.push(cur);
            assert(views(tokens@) =~= t0.push(cur@));
            Ok(tokens)
        },
        State::SingleQuoted => Err(MyError::Syntax(String::from_str("Unclosed single quote"))),
        State::DoubleQuoted | State::DoubleQuotedBackslash => Err(
            MyError::Syntax(String::from_str("Unclosed double quote")),
        ),
        State::SquareBracket | State::SquareBracketBackslash => Err(
            MyError::Syntax(String::from_str("Unclosed square bracket")),
        ),
    }
}

/// Text in which nothing quotes or escapes: no `'`, `"`, `\` or `[`.
pub open spec fn plain_text(input: Seq<char>) -> bool {
    forall|i: int|
        0 <= i < input.len() ==> #[trigger] input[i] != '\'' && input[i] != '"' && input[i] != '\\' && input[i]
            != '['
}

/// The words of `input` separated by whitespace, after the word `cur` begun before
/// it and the words `words` found before it.
pub open spec fn words_from(input: Seq<char>, cur: Seq<char>, words: Seq<Seq<char>>) -> Seq<Seq<char>>
    decreases input.len(),
{
    if input.len() == 0 {
        if cur.len() > 0 {
            words.push(cur)
        } else {
            words
        }
    } else if is_white_space(input[0]) {
        if cur.len() > 0 {
            words_from(input.drop_first(), Seq::empty(), words.push(cur))
        } else {
            words_from(input.drop_first(), Seq::empty(), words)
        }
    } else {
        words_from(input.drop_first(), cur.push(input[0]), words)
    }
}

/// The words of `input`, split on whitespace (as `str::split_whitespace` splits).
pub open spec fn split_whitespace(input: Seq<char>) -> Seq<Seq<char>> {
    words_from(input, Seq::empty(), Seq::empty())
}

proof fn lemma_plain_run(input: Seq<char>, state: State, cur: Seq<char>, tokens: Seq<Seq<char>>)
    requires
        plain_text(input),
        (state == State::Whitespace && cur.len() == 0) || (state == State::Unquoted && cur.len() > 0),
    ensures
        run(input, state, cur, tokens) == Ok::<Seq<Seq<char>>, Seq<char>>(words_from(input, cur, tokens)),
    decreases input.len(),
{
    if input.len() > 0 {
        let rest = input.drop_first();
        assert(plain_text(rest)) by {
            assert forall|i: int| 0 <= i < rest.len() implies #[trigger] rest[i] != '\'' && rest[i] != '"'
                && rest[i] != '\\' && rest[i] != '[' by {
                assert(rest[i] == input[i + 1]);
            }
        }
        let c = input[0];
        assert(c != '\'' && c != '"' && c != '\\' && c != '[');
        if state == State::Whitespace {
            assert(cur =~= Seq::<char>::empty());
        }
        if is_white_space(c) {
            lemma_plain_run(rest, State::Whitespace, Seq::empty(), if cur.len() > 0 { tokens.push(cur) } else { tokens });
        } else {
            lemma_plain_run(rest, State::Unquoted, cur.push(c), tokens);
        }
    }
}

/// Text in which nothing quotes or escapes is split on whitespace: the tokenizer
/// gives its words, and no word for text of whitespace only.
pub proof fn lemma_plain_text_splits_on_whitespace(input: Seq<char>)
    requires
        plain_text(input),
    ensures
        tokens_of(input) == Ok::<Seq<Seq<char>>, Seq<char>>(split_whitespace(input)),
{
    lemma_plain_run(input, State::Whitespace, Seq::empty(), Seq::empty());
}

} // verus!
