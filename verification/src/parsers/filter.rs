use vstd::prelude::*;
use vstd::string::StringExecFns;

use crate::error::{error_message, MyError, MyErrorView};
use crate::text::{chars_of, is_alphanumeric, char_is_alphanumeric, is_white_space, is_whitespace, push_char};

verus! {

/// A logical operator of a filter expression, by its binding number.
#[derive(Debug, Clone, Copy, PartialEq, Eq)]
pub struct Operator(pub u8);

/// Logical "and".
pub const OP_AND: u8 = 1;

/// Logical "or".
pub const OP_OR: u8 = 2;

/// One filter: a tag, a comparator (`==` or `!=`) and a pattern.
#[derive(Debug)]
pub struct FilterArgs {
    pub tag: String,
    pub comparator: String,
    pub pattern: String,
}

/// A token of a filter expression.
#[derive(Debug)]
pub enum Token {
    Operator(Operator),
    Filter(FilterArgs),
    OpeningParen,
    ClosingParen,
}

/// What a token holds, as plain values.
pub enum TokenView {
    Operator(u8),
    Filter(Seq<char>, Seq<char>, Seq<char>),
    OpeningParen,
    ClosingParen,
}

impl View for Token {
    type V = TokenView;

    open spec fn view(&self) -> TokenView {
        match self {
            Token::Operator(op) => TokenView::Operator(op.0),
            Token::Filter(a) => TokenView::Filter(a.tag@, a.comparator@, a.pattern@),
            Token::OpeningParen => TokenView::OpeningParen,
            Token::ClosingParen => TokenView::ClosingParen,
        }
    }
}

/// The views of a list of tokens.
pub open spec fn token_views(v: Seq<Token>) -> Seq<TokenView> {
    v.map_values(|t: Token| t@)
}

/// Where the filter tokenizer stands between two characters.
#[derive(Debug, Clone, Copy, PartialEq, Eq)]
pub enum FilterState {
    Start,
    Tag,
    Comparator,
    Pattern,
    PatternUnquoted,
    PatternQuoted,
    PatternQuotedBackslash,
}

/// The outcome of one character (or of the end, `None`) for the filter tokenizer.
pub enum FilterStep {
    Continue(FilterState, Seq<char>, Seq<char>, Seq<char>),
    Done,
    Fail(Seq<char>),
}

/// One character (or the end of input) read by the filter tokenizer, given the tag,
/// comparator and pattern built so far.
pub open spec fn filter_step(
    state: FilterState,
    c: Option<char>,
    tag: Seq<char>,
    comp: Seq<char>,
    pat: Seq<char>,
) -> FilterStep {
    match state {
        FilterState::Start => match c {
            Some(x) => if x == ' ' || x == '\t' || x == '\n' {
                FilterStep::Continue(FilterState::Start, tag, comp, pat)
            } else if char_is_alphanumeric(x) {
                FilterStep::Continue(FilterState::Tag, tag.push(x), comp, pat)
            } else {
                FilterStep::Fail("Tag must be alphanumeric"@)
            },
            None => FilterStep::Fail("Incomplete filter"@),
        },
        FilterState::Tag => match c {
            Some(x) => if char_is_alphanumeric(x) {
                FilterStep::Continue(FilterState::Tag, tag.push(x), comp, pat)
            } else if x == '!' || x == '=' {
                FilterStep::Continue(FilterState::Comparator, tag, comp.push(x), pat)
            } else {
                FilterStep::Fail("Tag must be alphanumeric"@)
            },
            None => FilterStep::Fail("Incomplete filter"@),
        },
        FilterState::Comparator => match c {
            Some(x) => if x == '=' {
                FilterStep::Continue(FilterState::Pattern, tag, comp.push(x), pat)
            } else {
                FilterStep::Fail("Invalid comparator"@)
            },
            None => FilterStep::Fail("Incomplete filter"@),
        },
        FilterState::Pattern => match c {
            Some(x) => if x == '"' {
                FilterStep::Continue(FilterState::PatternQuoted, tag, comp, pat)
            } else {
                FilterStep::Continue(FilterState::PatternUnquoted, tag, comp, pat.push(x))
            },
            None => FilterStep::Done,
        },
        FilterState::PatternUnquoted => match c {
            Some(x) => if is_white_space(x) {
                FilterStep::Done
            } else {
                FilterStep::Continue(FilterState::PatternUnquoted, tag, comp, pat.push(x))
            },
            None => FilterStep::Done,
        },
        FilterState::PatternQuoted => match c {
            Some(x) => if x == '\\' {
                FilterStep::Continue(FilterState::PatternQuotedBackslash, tag, comp, pat)
            } else if x == '"' {
                FilterStep::Done
            } else {
                FilterStep::Continue(FilterState::PatternQuoted, tag, comp, pat.push(x))
            },
            None => FilterStep::Fail("Unclosed double quote"@),
        },
        FilterState::PatternQuotedBackslash => match c {
            Some(x) => if x == '\n' {
                FilterStep::Continue(FilterState::PatternQuoted, tag, comp, pat)
            } else if x == '"' || x == '\\' {
                FilterStep::Continue(FilterState::PatternQuoted, tag, comp, pat.push(x))
            } else {
                FilterStep::Continue(
                    FilterState::PatternQuoted,
                    tag,
                    comp,
                    pat.push('\\').push(x),
                )
            },
            None => FilterStep::Fail("Unclosed double quote"@),
        },
    }
}

/// The filter tokenizer run from index `i`: the tag, comparator and pattern and the
/// index just past the last character read, or the description of the error.
pub open spec fn filter_run(
    input: Seq<char>,
    i: nat,
    state: FilterState,
    tag: Seq<char>,
    comp: Seq<char>,
    pat: Seq<char>,
) -> Result<(Seq<char>, Seq<char>, Seq<char>, nat), Seq<char>>
    decreases input.len() - i,
{
    if i < input.len() {
        match filter_step(state, Some(input[i as int]), tag, comp, pat) {
            FilterStep::Continue(s, t, c, p) => filter_run(input, i + 1, s, t, c, p),
            FilterStep::Done => Ok((tag, comp, pat, i + 1)),
            FilterStep::Fail(m) => Err(m),
        }
    } else {
        match filter_step(state, None, tag, comp, pat) {
            FilterStep::Done => Ok((tag, comp, pat, input.len())),
            FilterStep::Fail(m) => Err(m),
            FilterStep::Continue(_, _, _, _) => Err(Seq::empty()),
        }
    }
}

/// One filter read from index `i`.
pub open spec fn filter_at(input: Seq<char>, i: nat) -> Result<
    (Seq<char>, Seq<char>, Seq<char>, nat),
    Seq<char>,
> {
    filter_run(input, i, FilterState::Start, Seq::empty(), Seq::empty(), Seq::empty())
}

/// Reads one filter (`tag==pattern` or `tag!=pattern`, the pattern optionally in double
/// quotes) starting at `start`; returns it and the index just past what was read.
pub fn tokenize_filter(input: &Vec<char>, start: usize) -> (r: Result<(FilterArgs, usize), MyError>)
    requires
        start <= input@.len(),
    ensures
        match filter_at(input@, start as nat) {
            Ok((t, c, p, j)) => r matches Ok((a, k)) && a.tag@ == t && a.comparator@ == c
                && a.pattern@ == p && k == j,
            Err(m) => r matches Err(e) && e@ == MyErrorView::Syntax(m),
        },
        r matches Ok((_, k)) ==> start < k <= input@.len(),
{
    let n = input.len();
    let mut tag = String::new();
    let mut comp = String::new();
    let mut pat = String::new();
    let mut state = FilterState::Start;
    let mut i = start;
    while i < n
        invariant
            n == input@.len(),
            start <= i <= n,
            state == FilterState::Start ==> tag@.len() == 0,
            i == start ==> state == FilterState::Start,
            filter_run(input@, i as nat, state, tag@, comp@, pat@) == filter_at(input@, start as nat),
        decreases n - i,
    {
        let c = input[i];
        let next = match state {
            FilterState::Start => {
                if c == ' ' || c == '\t' || c == '\n' {
                    FilterState::Start
                } else if is_alphanumeric(c) {
                    push_char(&mut tag, c);
                    FilterState::Tag
                } else {
                    return Err(MyError::Syntax(String::from_str("Tag must be alphanumeric")));
                }
            },
            FilterState::Tag => {
                if is_alphanumeric(c) {
                    push_char(&mut tag, c);
                    FilterState::Tag
                } else if c == '!' || c == '=' {
                    push_char(&mut comp, c);
                    FilterState::Comparator
                } else {
                    return Err(MyError::Syntax(String::from_str("Tag must be alphanumeric")));
                }
            },
            FilterState::Comparator => {
                if c == '=' {
                    push_char(&mut comp, c);
                    FilterState::Pattern
                } else {
                    return Err(MyError::Syntax(String::from_str("Invalid comparator")));
                }
            },
            FilterState::Pattern => {
                if c == '"' {
                    FilterState::PatternQuoted
                } else {
                    push_char(&mut pat, c);
                    FilterState::PatternUnquoted
                }
            },
            FilterState::PatternUnquoted => {
                if is_whitespace(c) {
                    return Ok((FilterArgs { tag, comparator: comp, pattern: pat }, i + 1));
                } else {
                    push_char(&mut pat, c);
                    FilterState::PatternUnquoted
                }
            },
            FilterState::PatternQuoted => {
                if c == '\\' {
                    FilterState::PatternQuotedBackslash
                } else if c == '"' {
                    return Ok((FilterArgs { tag, comparator: comp, pattern: pat }, i + 1));
                } else {
                    push_char(&mut pat, c);
                    FilterState::PatternQuoted
                }
            },
            FilterState::PatternQuotedBackslash => {
                if c == '\n' {
                    FilterState::PatternQuoted
                } else if c == '"' || c == '\\' {
                    push_char(&mut pat, c);
                    FilterState::PatternQuoted
                } else {
                    push_char(&mut pat, '\\');
                    push_char(&mut pat, c);
                    FilterState::PatternQuoted
                }
            },
        };
        state = next;
        i = i + 1;
    }
    match state {
        FilterState::Pattern | FilterState::PatternUnquoted => {
            Ok((FilterArgs { tag, comparator: comp, pattern: pat }, n))
        },
        FilterState::PatternQuoted | FilterState::PatternQuotedBackslash => {
            Err(MyError::Syntax(String::from_str("Unclosed double quote")))
        },
        _ => Err(MyError::Syntax(String::from_str("Incomplete filter"))),
    }
}

/// The tokens of a filter expression from index `i` on, after the tokens `acc`, or the
/// description of the error.
pub open spec fn tokens_from(input: Seq<char>, i: nat, acc: Seq<TokenView>) -> Result<
    Seq<TokenView>,
    Seq<char>,
>
    decreases input.len() - i,
{
    if i < input.len() {
        let c = input[i as int];
        if is_white_space(c) {
            tokens_from(input, i + 1, acc)
        } else if c == '(' {
            tokens_from(input, i + 1, acc.push(TokenView::OpeningParen))
        } else if c == ')' {
            tokens_from(input, i + 1, acc.push(TokenView::ClosingParen))
        } else if c == '&' {
            tokens_from(input, i + 1, acc.push(TokenView::Operator(OP_AND)))
        } else if c == '|' {
            tokens_from(input, i + 1, acc.push(TokenView::Operator(OP_OR)))
        } else {
            match filter_at(input, i) {
                Ok((t, c, p, j)) => if i < j <= input.len() {
                    tokens_from(input, j, acc.push(TokenView::Filter(t, c, p)))
                } else {
                    Err(Seq::empty())
                },
                Err(m) => Err(error_message(MyErrorView::Syntax(m))),
            }
        }
    } else {
        Ok(acc)
    }
}

/// The tokens of a filter expression: parentheses, `&`, `|` and filters.
pub open spec fn filter_tokens_of(input: Seq<char>) -> Result<Seq<TokenView>, Seq<char>> {
    tokens_from(input, 0, Seq::empty())
}

/// Splits a filter expression into tokens.
pub fn tokenize(s: &str) -> (r: Result<Vec<Token>, MyError>)
    ensures
        match filter_tokens_of(s@) {
            Ok(t) => r matches Ok(v) && token_views(v@) == t,
            Err(m) => r matches Err(e) && e@ == MyErrorView::Syntax(m),
        },
{
    let input = chars_of(s);
    let n = input.len();
    let mut tokens: Vec<Token> = Vec::new();
    let mut i: usize = 0;
    assert(token_views(tokens@) =~= Seq::<TokenView>::empty());
    while i < n
        invariant
            n == input@.len(),
            input@ == s@,
            i <= n,
            tokens_from(input@, i as nat, token_views(tokens@)) == filter_tokens_of(s@),
        decreases n - i,
    {
        let c = input[i];
        let ghost t0 = token_views(tokens@);
        if is_whitespace(c) {
            i = i + 1;
        } else if c == '(' {
            tokens.push(Token::OpeningParen);
            assert(token_views(tokens@) =~= t0.push(TokenView::OpeningParen));
            i = i + 1;
        } else if c == ')' {
            tokens.push(Token::ClosingParen);
            assert(token_views(tokens@) =~= t0.push(TokenView::ClosingParen));
            i = i + 1;
        } else if c == '&' {
            tokens.push(Token::Operator(Operator(OP_AND)));
            assert(token_views(tokens@) =~= t0.push(TokenView::Operator(OP_AND)));
            i = i + 1;
        } else if c == '|' {
            tokens.push(Token::Operator(Operator(OP_OR)));
            assert(token_views(tokens@) =~= t0.push(TokenView::Operator(OP_OR)));
            i = i + 1;
        } else {
            match tokenize_filter(&input, i) {
                Ok((args, j)) => {
                    let ghost v = TokenView::Filter(args.tag@, args.comparator@, args.pattern@);
                    tokens.push(Token::Filter(args));
                    assert(token_views(tokens@) =~= t0.push(v));
                    i = j;
                },
                Err(e) => {
                    return Err(MyError::Syntax(e.to_message()));
                },
            }
        }
    }
    Ok(tokens)
}

/// Moves operators that bind at least as loosely as `op` from the top of the stack
/// to the output.
pub open spec fn pop_operators(op: u8, stack: Seq<TokenView>, out: Seq<TokenView>) -> (
    Seq<TokenView>,
    Seq<TokenView>,
)
    decreases stack.len(),
{
    if stack.len() > 0 && (stack.last() matches TokenView::Operator(top) && op <= top) {
        pop_operators(op, stack.drop_last(), out.push(stack.last()))
    } else {
        (stack, out)
    }
}

/// Moves operators from the stack to the output down to the matching opening
/// parenthesis, which is dropped; `None` when there is none.
pub open spec fn close_paren(stack: Seq<TokenView>, out: Seq<TokenView>) -> Option<
    (Seq<TokenView>, Seq<TokenView>),
>
    decreases stack.len(),
{
    if stack.len() == 0 {
        None
    } else if stack.last() is OpeningParen {
        Some((stack.drop_last(), out))
    } else {
        close_paren(stack.drop_last(), out.push(stack.last()))
    }
}

/// Moves what is left on the stack to the output, top first; a parenthesis left
/// there is an error.
pub open spec fn flush(stack: Seq<TokenView>, out: Seq<TokenView>) -> Result<
    Seq<TokenView>,
    Seq<char>,
>
    decreases stack.len(),
{
    if stack.len() == 0 {
        Ok(out)
    } else if stack.last() is OpeningParen || stack.last() is ClosingParen {
        Err("Mismatched parentheses"@)
    } else {
        flush(stack.drop_last(), out.push(stack.last()))
    }
}

/// The shunting-yard algorithm over `infix`, with the operator stack and the output
/// so far.
pub open spec fn rpn_run(infix: Seq<TokenView>, stack: Seq<TokenView>, out: Seq<TokenView>) -> Result<
    Seq<TokenView>,
    Seq<char>,
>
    decreases infix.len(),
{
    if infix.len() == 0 {
        flush(stack, out)
    } else {
        let rest = infix.drop_first();
        match infix[0] {
            TokenView::Operator(op) => {
                let (s, o) = pop_operators(op, stack, out);
                rpn_run(rest, s.push(TokenView::Operator(op)), o)
            },
            TokenView::Filter(_, _, _) => rpn_run(rest, stack, out.push(infix[0])),
            TokenView::OpeningParen => rpn_run(rest, stack.push(TokenView::OpeningParen), out),
            TokenView::ClosingParen => match close_paren(stack, out) {
                Some((s, o)) => rpn_run(rest, s, o),
                None => Err("Mismatched parentheses"@),
            },
        }
    }
}

/// The tokens in reverse Polish notation, or the description of the error.
pub open spec fn rpn_of(infix: Seq<TokenView>) -> Result<Seq<TokenView>, Seq<char>> {
    rpn_run(infix, Seq::empty(), Seq::empty())
}

fn move_top(stack: &mut Vec<Token>, out: &mut Vec<Token>)
    requires
        old(stack)@.len() > 0,
    ensures
        final(stack)@.len() == old(stack)@.len() - 1,
        token_views(final(stack)@) == token_views(old(stack)@).drop_last(),
        token_views(final(out)@) == token_views(old(out)@).push(token_views(old(stack)@).last()),
{
    let t = stack.pop().unwrap();
    out.push(t);
    assert(token_views(stack@) =~= token_views(old(stack)@).drop_last());
    assert(token_views(out@) =~= token_views(old(out)@).push(token_views(old(stack)@).last()));
}

fn reversed(v: Vec<Token>) -> (r: Vec<Token>)
    ensures
        token_views(r@).reverse() == token_views(v@),
{
    let mut v = v;
    let ghost all = token_views(v@);
    let mut r: Vec<Token> = Vec::new();
    while v.len() > 0
        invariant
            token_views(v@) + token_views(r@).reverse() == all,
        decreases v.len(),
    {
        let ghost v0 = token_views(v@);
        let ghost r0 = token_views(r@);
        let t = v.pop().unwrap();
        r.push(t);
        assert(token_views(v@) =~= v0.drop_last());
        assert(token_views(r@) =~= r0.push(t@));
        assert(token_views(r@).reverse() =~= seq![t@] + r0.reverse());
        assert(v0 =~= v0.drop_last().push(t@));
        assert(token_views(v@) + token_views(r@).reverse() =~= v0 + r0.reverse());
    }
    assert(token_views(v@) =~= Seq::<TokenView>::empty());
    assert(token_views(r@).reverse() =~= Seq::<TokenView>::empty() + token_views(r@).reverse());
    r
}

/// Rearranges infix tokens into reverse Polish notation (shunting-yard); parentheses
/// disappear, and unmatched ones are an error.
#[verifier::loop_isolation(false)]
pub fn into_rpn(infix: Vec<Token>) -> (r: Result<Vec<Token>, MyError>)
    ensures
        match rpn_of(token_views(infix@)) {
            Ok(t) => r matches Ok(v) && token_views(v@) == t,
            Err(m) => r matches Err(e) && e@ == MyErrorView::Syntax(m),
        },
{
    let ghost all = token_views(infix@);
    let mut op_stack: Vec<Token> = Vec::new();
    let mut rpn: Vec<Token> = Vec::new();
    let mut rest = reversed(infix);
    assert(token_views(op_stack@) =~= Seq::<TokenView>::empty());
    assert(token_views(rpn@) =~= Seq::<TokenView>::empty());
    while rest.len() > 0
        invariant
            rpn_run(token_views(rest@).reverse(), token_views(op_stack@), token_views(rpn@))
                == rpn_of(all),
        decreases rest.len(),
    {
        let ghost before = token_views(rest@).reverse();
        let token = rest.pop().unwrap();
        assert(token_views(rest@).reverse() =~= before.drop_first());
        assert(before[0] == token@);
        match token {
            Token::Operator(op1) => {
                let ghost target = pop_operators(op1.0, token_views(op_stack@), token_views(rpn@));
                loop
                    invariant
                        pop_operators(op1.0, token_views(op_stack@), token_views(rpn@)) == target,
                    decreases op_stack.len(),
                {
                    let n = op_stack.len();
                    if n == 0 {
                        break;
                    }
                    let higher = match &op_stack[n - 1] {
                        Token::Operator(op2) => op1.0 <= op2.0,
                        _ => false,
                    };
                    if !higher {
                        break;
                    }
                    move_top(&mut op_stack, &mut rpn);
                }
                let ghost s0 = token_views(op_stack@);
                op_stack.push(Token::Operator(op1));
                assert(token_views(op_stack@) =~= s0.push(TokenView::Operator(op1.0)));
            },
            Token::Filter(args) => {
                let ghost o0 = token_views(rpn@);
                let ghost v = TokenView::Filter(args.tag@, args.comparator@, args.pattern@);
                rpn.push(Token::Filter(args));
                assert(token_views(rpn@) =~= o0.push(v));
            },
            Token::OpeningParen => {
                let ghost s0 = token_views(op_stack@);
                op_stack.push(Token::OpeningParen);
                assert(token_views(op_stack@) =~= s0.push(TokenView::OpeningParen));
            },
            Token::ClosingParen => {
                let ghost target = close_paren(token_views(op_stack@), token_views(rpn@));
                loop
                    invariant
                        close_paren(token_views(op_stack@), token_views(rpn@)) == target,
                    decreases op_stack.len(),
                {
                    let n = op_stack.len();
                    if n == 0 {
                        return Err(MyError::Syntax(String::from_str("Mismatched parentheses")));
                    }
                    let is_open = match &op_stack[n - 1] {
                        Token::OpeningParen => true,
                        _ => false,
                    };
                    if is_open {
                        let ghost s0 = token_views(op_stack@);
                        let _ = op_stack.pop();
                        assert(token_views(op_stack@) =~= s0.drop_last());
                        break;
                    }
                    move_top(&mut op_stack, &mut rpn);
                }
            },
        }
    }
    assert(token_views(rest@).reverse() =~= Seq::<TokenView>::empty());
    loop
        invariant
            flush(token_views(op_stack@), token_views(rpn@)) == rpn_of(all),
        decreases op_stack.len(),
    {
        let n = op_stack.len();
        if n == 0 {
            break;
        }
        let is_paren = match &op_stack[n - 1] {
            Token::OpeningParen | Token::ClosingParen => true,
            _ => false,
        };
        if is_paren {
            return Err(MyError::Syntax(String::from_str("Mismatched parentheses")));
        }
        move_top(&mut op_stack, &mut rpn);
    }
    Ok(rpn)
}

} // verus!
