use crate::text::{chars_of, is_whitespace, push_char, whitespace};
use vstd::prelude::*;

verus! {

/// The tokenizer's state between two characters.
pub struct Lexer {
    /// The words that are complete.
    pub args: Seq<Seq<char>>,
    /// The word that is being read.
    pub current: Seq<char>,
    pub in_single_quotes: bool,
    pub in_double_quotes: bool,
    /// The last character was a backslash that is still to take effect.
    pub escaped: bool,
}

/// What the character after a backslash adds to the word.
///
/// Inside double quotes a backslash only escapes `$`, a backquote, `"`, a
/// backslash and a line feed, and stays in the word before anything else.
/// Inside single quotes it always stays. Outside quotes it escapes every
/// character, and together with a line feed it vanishes.
pub open spec fn after_escape(st: Lexer, c: char) -> Seq<char> {
    if st.in_double_quotes {
        if c == '$' || c == '`' || c == '"' || c == '\\' || c == '\n' {
            st.current.push(c)
        } else {
            st.current.push('\\').push(c)
        }
    } else if st.in_single_quotes {
        st.current.push('\\').push(c)
    } else if c == '\n' {
        st.current
    } else {
        st.current.push(c)
    }
}

/// The state after reading `c`.
pub open spec fn lex_char(st: Lexer, c: char) -> Lexer {
    if st.escaped {
        Lexer {
            args: st.args,
            current: after_escape(st, c),
            in_single_quotes: st.in_single_quotes,
            in_double_quotes: st.in_double_quotes,
            escaped: false,
        }
    } else if c == '\\' {
        Lexer {
            args: st.args,
            current: st.current,
            in_single_quotes: st.in_single_quotes,
            in_double_quotes: st.in_double_quotes,
            escaped: true,
        }
    } else if c == '\'' && !st.in_double_quotes {
        Lexer {
            args: st.args,
            current: st.current,
            in_single_quotes: !st.in_single_quotes,
            in_double_quotes: st.in_double_quotes,
            escaped: false,
        }
    } else if c == '"' && !st.in_single_quotes {
        Lexer {
            args: st.args,
            current: st.current,
            in_single_quotes: st.in_single_quotes,
            in_double_quotes: !st.in_double_quotes,
            escaped: false,
        }
    } else if whitespace(c) && !st.in_single_quotes && !st.in_double_quotes {
        if st.current.len() > 0 {
            Lexer {
                args: st.args.push(st.current),
                current: Seq::empty(),
                in_single_quotes: false,
                in_double_quotes: false,
                escaped: false,
            }
        } else {
            st
        }
    } else {
        Lexer {
            args: st.args,
            current: st.current.push(c),
            in_single_quotes: st.in_single_quotes,
            in_double_quotes: st.in_double_quotes,
            escaped: false,
        }
    }
}

/// The state after reading all of `input`.
pub open spec fn lex(input: Seq<char>) -> Lexer
    decreases input.len(),
{
    if input.len() == 0 {
        Lexer {
            args: Seq::empty(),
            current: Seq::empty(),
            in_single_quotes: false,
            in_double_quotes: false,
            escaped: false,
        }
    } else {
        lex_char(lex(input.drop_last()), input.last())
    }
}

/// The last word at the end of the input. A backslash that nothing follows
/// stays in the word; quotes that were never closed end with the input.
pub open spec fn last_word(st: Lexer) -> Seq<char> {
    if !st.escaped {
        st.current
    } else if st.in_single_quotes && st.in_double_quotes {
        st.current.push('\\').push('\\')
    } else {
        st.current.push('\\')
    }
}

/// The words at the end of the input.
pub open spec fn lex_end(st: Lexer) -> Seq<Seq<char>> {
    if last_word(st).len() > 0 {
        st.args.push(last_word(st))
    } else {
        st.args
    }
}

/// The words of a command line.
pub open spec fn parsed_args(input: Seq<char>) -> Seq<Seq<char>> {
    lex_end(lex(input))
}

/// The tokenizer is never inside single and double quotes at once.
pub proof fn lemma_one_quote_at_a_time(input: Seq<char>)
    ensures
        !(lex(input).in_single_quotes && lex(input).in_double_quotes),
    decreases input.len(),
{
    if input.len() > 0 {
        lemma_one_quote_at_a_time(input.drop_last());
    }
}

/// Splits a command line into words at whitespace, with quotes and
/// backslashes read as a shell reads them.
pub fn parse_args(input: &str) -> (args: Vec<String>)
    ensures
        args@.map_values(|a: String| a@) == parsed_args(input@),
{
    let chars = chars_of(input);
    let mut args: Vec<String> = Vec::new();
    let mut current_arg = String::new();
    let mut in_single_quotes = false;
    let mut in_double_quotes = false;
    let mut escaped = false;
    let mut i: usize = 0;
    assert(chars@.subrange(0, 0) =~= Seq::<char>::empty());
    assert(args@.map_values(|a: String| a@) =~= Seq::<Seq<char>>::empty());
    while i < chars.len()
        invariant
            i <= chars.len(),
            chars@ == input@,
            lex(chars@.subrange(0, i as int)) == (Lexer {
                args: args@.map_values(|a: String| a@),
                current: current_arg@,
                in_single_quotes,
                in_double_quotes,
                escaped,
            }),
        decreases chars.len() - i,
    {
        let c = chars[i];
        proof {
            let next = chars@.subrange(0, i + 1);
            assert(next.drop_last() =~= chars@.subrange(0, i as int));
            assert(next.last() == c);
        }
        if escaped {
            if in_double_quotes {
                if c == '$' || c == '`' || c == '"' || c == '\\' || c == '\n' {
                    push_char(&mut current_arg, c);
                } else {
                    push_char(&mut current_arg, '\\');
                    push_char(&mut current_arg, c);
                }
            } else if in_single_quotes {
                push_char(&mut current_arg, '\\');
                push_char(&mut current_arg, c);
            } else if c == '\n' {
            } else {
                push_char(&mut current_arg, c);
            }
            escaped = false;
        } else if c == '\\' {
            escaped = true;
        } else if c == '\'' && !in_double_quotes {
            in_single_quotes = !in_single_quotes;
        } else if c == '"' && !in_single_quotes {
            in_double_quotes = !in_double_quotes;
        } else if is_whitespace(c) && !in_single_quotes && !in_double_quotes {
            if !current_arg.as_str().is_empty() {
                let ghost before = args@.map_values(|a: String| a@);
                let ghost word = current_arg@;
                args.push(current_arg);
                current_arg = String::new();
                assert(args@.map_values(|a: String| a@) =~= before.push(word));
            }
        } else {
            push_char(&mut current_arg, c);
        }
        i += 1;
    }
    assert(chars@.subrange(0, chars.len() as int) =~= input@);
    if escaped {
        if !in_single_quotes && !in_double_quotes {
            push_char(&mut current_arg, '\\');
        } else if in_single_quotes {
            push_char(&mut current_arg, '\\');
        }
        if in_double_quotes {
            push_char(&mut current_arg, '\\');
        }
    }
    if !current_arg.as_str().is_empty() {
        let ghost before = args@.map_values(|a: String| a@);
        let ghost word = current_arg@;
        args.push(current_arg);
        assert(args@.map_values(|a: String| a@) =~= before.push(word));
    }
    args
}

} // verus!
