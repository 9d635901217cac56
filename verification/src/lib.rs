//! Front end of a small interactive language that blends shell-style
//! command chaining with a C-like expression grammar.  The crate holds a
//! lexer that turns source text into an `Eof`-terminated token sequence
//! and a precedence-climbing parser that turns the tokens into one syntax
//! tree per call.  Both are specified against mathematical models of the
//! character stream, the token stream and the tree, and verified against
//! those models.

use vstd::prelude::*;

pub mod ast;
pub mod laws;
pub mod lexer;
pub mod parser;
pub mod values;

verus! {

/// The bracket scan of `s` succeeds from position `i` onward, starting
/// with the given stack of still-open brackets: every closing bracket
/// matches the top of the stack, and the stack is empty at the end.
pub open spec fn delim_scan(s: Seq<char>, i: int, stack: Seq<char>) -> bool
    decreases s.len() - i,
{
    if i < 0 || i >= s.len() {
        stack.len() == 0
    } else {
        let c = s[i];
        if c == '(' || c == '{' || c == '[' {
            delim_scan(s, i + 1, stack.push(c))
        } else if c == ')' {
            stack.len() > 0 && stack.last() == '(' && delim_scan(s, i + 1, stack.drop_last())
        } else if c == '}' {
            stack.len() > 0 && stack.last() == '{' && delim_scan(s, i + 1, stack.drop_last())
        } else if c == ']' {
            stack.len() > 0 && stack.last() == '[' && delim_scan(s, i + 1, stack.drop_last())
        } else {
            delim_scan(s, i + 1, stack)
        }
    }
}

/// The brackets `(`, `{` and `[` of `s` all nest properly and are all
/// closed by the matching partner.
pub open spec fn spec_valid_delimiters(s: Seq<char>) -> bool {
    delim_scan(s, 0, Seq::<char>::empty())
}

/// Whether every bracket of `input` is matched: each `)`, `}` and `]`
/// closes the most recent open bracket, and nothing stays open.  The
/// buffering loop around the parser uses this to decide whether a
/// buffered input is complete enough to hand to the lexer.
pub fn valid_delimiters(input: &str) -> (r: bool)
    ensures
        r == spec_valid_delimiters(input@),
{
    let ghost s = input@;
    let n = input.unicode_len();
    let mut stack: Vec<char> = Vec::new();
    let mut i: usize = 0;
    while i < n
        invariant
            0 <= i <= n,
            n == s.len(),
            s == input@,
            spec_valid_delimiters(s) == delim_scan(s, i as int, stack@),
        decreases n - i,
    {
        let c = input.get_char(i);
        if c == '(' || c == '{' || c == '[' {
            stack.push(c);
        } else if c == ')' {
            if stack.len() == 0 || stack[stack.len() - 1] != '(' {
                return false;
            }
            stack.pop();
        } else if c == '}' {
            if stack.len() == 0 || stack[stack.len() - 1] != '{' {
                return false;
            }
            stack.pop();
        } else if c == ']' {
            if stack.len() == 0 || stack[stack.len() - 1] != '[' {
                return false;
            }
            stack.pop();
        }
        i += 1;
    }
    stack.len() == 0
}

} // verus!
