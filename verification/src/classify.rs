//! Shell command classification: splitting a command line into arguments
//! while respecting single and double quotes, and refusing shell
//! metacharacters outside quoted strings.

use vstd::prelude::*;
use vstd::string::StrSliceExecFns;
use vstd::string::StringExecFns;

verus! {

/// Whether a command only reads or may change state.
#[derive(Debug, Clone, Copy, PartialEq, Eq, Structural)]
pub enum CommandClass {
    ReadOnly,
    Mutating,
}

/// The whitespace that separates unquoted arguments: any white-space
/// character.
pub open spec fn spec_shell_space(c: char) -> bool {
    crate::strutil::spec_white_space(c)
}

/// Parser state: the arguments finished so far, the argument being
/// collected, and which kind of quote is open.
#[verifier::ext_equal]
pub ghost struct ShellParseState {
    pub args: Seq<Seq<char>>,
    pub cur: Seq<char>,
    pub in_single: bool,
    pub in_double: bool,
}

/// One character of quote-aware argument splitting.
pub open spec fn spec_shell_step(st: ShellParseState, c: char) -> ShellParseState {
    if c == '\'' && !st.in_double {
        ShellParseState { in_single: !st.in_single, ..st }
    } else if c == '"' && !st.in_single {
        ShellParseState { in_double: !st.in_double, ..st }
    } else if spec_shell_space(c) && !st.in_single && !st.in_double {
        if st.cur.len() > 0 {
            ShellParseState { args: st.args.push(st.cur), cur: Seq::empty(), ..st }
        } else {
            st
        }
    } else {
        ShellParseState { cur: st.cur.push(c), ..st }
    }
}

/// The parser state after a whole text.
pub open spec fn spec_shell_run(st: ShellParseState, s: Seq<char>) -> ShellParseState
    decreases s.len(),
{
    if s.len() == 0 {
        st
    } else {
        spec_shell_run(spec_shell_step(st, s[0]), s.drop_first())
    }
}

/// The result of splitting a command line: its arguments, or the error
/// for an unterminated quote.
pub open spec fn spec_parse_shell_args(s: Seq<char>) -> Result<Seq<Seq<char>>, Seq<char>> {
    let init = ShellParseState {
        args: Seq::empty(),
        cur: Seq::empty(),
        in_single: false,
        in_double: false,
    };
    let st = spec_shell_run(init, s);
    if st.in_single {
        Err("Unterminated single quote"@)
    } else if st.in_double {
        Err("Unterminated double quote"@)
    } else if st.cur.len() > 0 {
        Ok(st.args.push(st.cur))
    } else {
        Ok(st.args)
    }
}

/// Parse a command string into arguments, respecting single and double
/// quotes; an unterminated quote is an error.
pub fn parse_shell_args(command: &str) -> (r: Result<Vec<String>, String>)
    ensures
        match r {
            Ok(v) => spec_parse_shell_args(command@) == Ok::<Seq<Seq<char>>, Seq<char>>(
                v.deep_view(),
            ),
            Err(e) => spec_parse_shell_args(command@) == Err::<Seq<Seq<char>>, Seq<char>>(e@),
        },
{
    let ghost init = ShellParseState {
        args: Seq::empty(),
        cur: Seq::empty(),
        in_single: false,
        in_double: false,
    };
    let n = command.unicode_len();
    let mut args: Vec<String> = Vec::new();
    let mut current = String::new();
    let mut in_single = false;
    let mut in_double = false;
    let mut i: usize = 0;
    proof {
        assert(command@.subrange(0, n as int) =~= command@);
        assert(args.deep_view() =~= Seq::<Seq<char>>::empty());
    }
    while i < n
        invariant
            i <= n,
            n == command@.len(),
            spec_shell_run(
                ShellParseState {
                    args: args.deep_view(),
                    cur: current@,
                    in_single: in_single,
                    in_double: in_double,
                },
                command@.subrange(i as int, n as int),
            ) == spec_shell_run(init, command@),
        decreases n - i,
    {
        let ghost stv = ShellParseState {
            args: args.deep_view(),
            cur: current@,
            in_single: in_single,
            in_double: in_double,
        };
        let ghost rest = command@.subrange(i as int, n as int);
        proof {
            assert(rest[0] == command@[i as int]);
            assert(rest.drop_first() =~= command@.subrange(i + 1, n as int));
        }
        let c = command.get_char(i);
        if c == '\'' && !in_double {
            in_single = !in_single;
        } else if c == '"' && !in_single {
            in_double = !in_double;
        } else if crate::strutil::is_white_space(c) && !in_single && !in_double {
            if !current.as_str().is_empty() {
                let ghost prev = args.deep_view();
                args.push(current);
                current = String::new();
                proof {
                    assert(args.deep_view() =~= prev.push(stv.cur));
                }
            }
        } else {
            crate::strutil::push_char(&mut current, c);
        }
        proof {
            assert((ShellParseState {
                args: args.deep_view(),
                cur: current@,
                in_single: in_single,
                in_double: in_double,
            }) =~= spec_shell_step(stv, c));
        }
        i = i + 1;
    }
    proof {
        assert(command@.subrange(n as int, n as int) =~= Seq::<char>::empty());
    }
    if in_single {
        return Err(String::from_str("Unterminated single quote"));
    }
    if in_double {
        return Err(String::from_str("Unterminated double quote"));
    }
    if !current.as_str().is_empty() {
        let ghost prev = args.deep_view();
        args.push(current);
        proof {
            assert(args.deep_view() =~= prev.push(
                spec_shell_run(init, command@).cur,
            ));
        }
    }
    Ok(args)
}

/// The refusal message for one shell operator character.
pub open spec fn spec_op_err(c: char) -> Seq<char> {
    "Shell operator '"@ + seq![c] + "' is not allowed"@
}

/// The outcome of scanning for shell metacharacters from position `i`.
pub open spec fn spec_check_ops(s: Seq<char>, i: int, in_s: bool, in_d: bool) -> Result<
    (),
    Seq<char>,
>
    decreases s.len() - i,
{
    if !(0 <= i < s.len()) {
        Ok(())
    } else {
        let c = s[i];
        if c == '\'' && !in_d {
            spec_check_ops(s, i + 1, !in_s, in_d)
        } else if c == '"' && !in_s {
            spec_check_ops(s, i + 1, in_s, !in_d)
        } else if in_s || in_d {
            spec_check_ops(s, i + 1, in_s, in_d)
        } else if c == '|' || c == ';' || c == '`' || c == '>' || c == '<' {
            Err(spec_op_err(c))
        } else if c == '$' && i + 1 < s.len() && s[i + 1] == '(' {
            Err("Shell operator '$(' is not allowed"@)
        } else if c == '&' && i + 1 < s.len() && s[i + 1] == '&' {
            Err("Shell operator '&&' is not allowed"@)
        } else if c == '\n' || c == '\r' {
            Err("Newlines are not allowed outside of quoted strings"@)
        } else {
            spec_check_ops(s, i + 1, in_s, in_d)
        }
    }
}

/// Check for shell metacharacters outside of quoted strings.
pub fn check_shell_operators(command: &str) -> (r: Result<(), String>)
    ensures
        match r {
            Ok(_) => spec_check_ops(command@, 0, false, false) == Ok::<(), Seq<char>>(()),
            Err(e) => spec_check_ops(command@, 0, false, false) == Err::<(), Seq<char>>(e@),
        },
{
    let n = command.unicode_len();
    let mut in_single = false;
    let mut in_double = false;
    let mut i: usize = 0;
    while i < n
        invariant
            i <= n,
            n == command@.len(),
            spec_check_ops(command@, i as int, in_single, in_double) == spec_check_ops(
                command@,
                0,
                false,
                false,
            ),
        decreases n - i,
    {
        let c = command.get_char(i);
        if c == '\'' && !in_double {
            in_single = !in_single;
        } else if c == '"' && !in_single {
            in_double = !in_double;
        } else if in_single || in_double {
        } else if c == '|' || c == ';' || c == '`' || c == '>' || c == '<' {
            let mut e = String::from_str("Shell operator '");
            crate::strutil::push_char(&mut e, c);
            e.append("' is not allowed");
            proof {
                assert(e@ =~= spec_op_err(c));
            }
            return Err(e);
        } else if c == '$' && i + 1 < n && command.get_char(i + 1) == '(' {
            return Err(String::from_str("Shell operator '$(' is not allowed"));
        } else if c == '&' && i + 1 < n && command.get_char(i + 1) == '&' {
            return Err(String::from_str("Shell operator '&&' is not allowed"));
        } else if c == '\n' || c == '\r' {
            return Err(String::from_str("Newlines are not allowed outside of quoted strings"));
        }
        i = i + 1;
    }
    Ok(())
}

} // verus!
