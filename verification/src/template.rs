use vstd::prelude::*;
use vstd::string::StringExecFns;

verus! {

/// One substitution argument for a value template: positional when it
/// carries no name (answering `{}` placeholders in order), or named
/// (answering `{name}` placeholders).
pub struct FmtArg {
    /// The placeholder name this argument answers, if any.
    pub name: Option<String>,
    /// The text substituted for the placeholder.
    pub value: String,
}

impl FmtArg {
    /// A positional argument, consumed by `{}` placeholders in order.
    pub fn positional(value: &str) -> (a: FmtArg)
        ensures
            a.name is None,
            a.value@ == value@,
    {
        FmtArg { name: None, value: value.to_owned() }
    }

    /// A named argument, consumed by `{name}` placeholders.
    pub fn named(name: &str, value: &str) -> (a: FmtArg)
        ensures
            a.name matches Some(n) && n@ == name@,
            a.value@ == value@,
    {
        FmtArg { name: Some(name.to_owned()), value: value.to_owned() }
    }
}

/// The text substituted for the `pos`-th `{}` placeholder: the value of
/// the `pos`-th argument that carries no name, if there is one.
pub open spec fn positional_value(args: Seq<FmtArg>, pos: nat) -> Option<Seq<char>>
    decreases args.len(),
{
    if args.len() == 0 {
        None
    } else if args[0].name is None {
        if pos == 0 {
            Some(args[0].value@)
        } else {
            positional_value(args.skip(1), (pos - 1) as nat)
        }
    } else {
        positional_value(args.skip(1), pos)
    }
}

/// The text substituted for a `{name}` placeholder: the value of the
/// first argument named `name`, if there is one.
pub open spec fn named_value(args: Seq<FmtArg>, name: Seq<char>) -> Option<Seq<char>>
    decreases args.len(),
{
    if args.len() == 0 {
        None
    } else if args[0].name matches Some(n) && n@ == name {
        Some(args[0].value@)
    } else {
        named_value(args.skip(1), name)
    }
}

/// The position of the first `}` in `t` at or after `i`, if any.
pub open spec fn brace_end(t: Seq<char>, i: int) -> Option<int>
    decreases t.len() - i,
{
    if i < 0 || i >= t.len() {
        None
    } else if t[i] == '}' {
        Some(i)
    } else {
        brace_end(t, i + 1)
    }
}

/// The template `t` with every `{{` and `}}` replaced by a literal
/// brace, every `{}` replaced by the next positional argument (the
/// first one being number `pos`), and every `{name}` replaced by the
/// argument of that name; `None` when a brace is unmatched or an
/// argument is missing, which is a programmer error in the caller.
pub open spec fn resolved(t: Seq<char>, args: Seq<FmtArg>, pos: nat) -> Option<Seq<char>>
    decreases t.len(),
{
    if t.len() == 0 {
        Some(Seq::empty())
    } else if t[0] == '{' && t.len() >= 2 && t[1] == '{' {
        match resolved(t.skip(2), args, pos) {
            Some(rest) => Some(seq!['{'] + rest),
            None => None,
        }
    } else if t[0] == '}' && t.len() >= 2 && t[1] == '}' {
        match resolved(t.skip(2), args, pos) {
            Some(rest) => Some(seq!['}'] + rest),
            None => None,
        }
    } else if t[0] == '{' {
        match brace_end(t, 1) {
            Some(j) => {
                if 1 <= j < t.len() {
                    let name = t.subrange(1, j);
                    if name.len() == 0 {
                        match (positional_value(args, pos), resolved(t.skip(j + 1), args, pos + 1)) {
                            (Some(v), Some(rest)) => Some(v + rest),
                            _ => None,
                        }
                    } else {
                        match (named_value(args, name), resolved(t.skip(j + 1), args, pos)) {
                            (Some(v), Some(rest)) => Some(v + rest),
                            _ => None,
                        }
                    }
                } else {
                    None
                }
            }
            None => None,
        }
    } else if t[0] == '}' {
        None
    } else {
        match resolved(t.skip(1), args, pos) {
            Some(rest) => Some(seq![t[0]] + rest),
            None => None,
        }
    }
}

/// Relies on String::push: appends exactly the one character `c`.
#[verifier::external_body]
fn push_char(s: &mut String, c: char)
    ensures
        final(s)@ == old(s)@.push(c),
{
    s.push(c);
}

/// The value of the `pos`-th unnamed argument, as `positional_value`
/// gives it.
fn find_positional(args: &Vec<FmtArg>, pos: usize) -> (r: Option<String>)
    ensures
        (r is None) == (positional_value(args@, pos as nat) is None),
        r matches Some(v) ==> positional_value(args@, pos as nat) == Some(v@),
{
    let mut i: usize = 0;
    let mut k: usize = pos;
    proof {
        assert(args@.skip(0) =~= args@);
    }
    while i < args.len()
        invariant
            i <= args@.len(),
            positional_value(args@, pos as nat) == positional_value(
                args@.skip(i as int),
                k as nat,
            ),
        decreases args@.len() - i,
    {
        proof {
            assert(args@.skip(i as int)[0] == args@[i as int]);
            assert(args@.skip(i as int).skip(1) =~= args@.skip(i as int + 1));
        }
        match &args[i].name {
            Option::None => {
                if k == 0 {
                    return Some(args[i].value.clone());
                }
                k = k - 1;
            }
            Option::Some(_) => {}
        }
        i = i + 1;
    }
    None
}

/// The value of the first argument named `name`, as `named_value`
/// gives it.
fn find_named(args: &Vec<FmtArg>, name: &str) -> (r: Option<String>)
    ensures
        (r is None) == (named_value(args@, name@) is None),
        r matches Some(v) ==> named_value(args@, name@) == Some(v@),
{
    let wanted: String = name.to_owned();
    let mut i: usize = 0;
    proof {
        assert(args@.skip(0) =~= args@);
    }
    while i < args.len()
        invariant
            i <= args@.len(),
            wanted@ == name@,
            (named_value(args@, name@) is None) == (named_value(args@.skip(i as int), name@)
                is None),
            named_value(args@, name@) matches Some(v) ==> named_value(
                args@.skip(i as int),
                name@,
            ) == Some(v),
        decreases args@.len() - i,
    {
        proof {
            assert(args@.skip(i as int)[0] == args@[i as int]);
            assert(args@.skip(i as int).skip(1) =~= args@.skip(i as int + 1));
        }
        match &args[i].name {
            Option::Some(n) => {
                if *n == wanted {
                    return Some(args[i].value.clone());
                }
            }
            Option::None => {}
        }
        i = i + 1;
    }
    None
}

/// The position of the first `}` at or after `i`, as `brace_end` gives
/// it.
fn find_brace_end(t: &str, i: usize) -> (r: Option<usize>)
    ensures
        match r {
            Some(j) => brace_end(t@, i as int) == Some(j as int) && i <= j < t@.len() && t@[j as int]
                == '}',
            None => brace_end(t@, i as int) is None,
        },
    decreases t@.len() - i,
{
    let n = t.unicode_len();
    if i >= n {
        None
    } else if t.get_char(i) == '}' {
        Some(i)
    } else {
        find_brace_end(t, i + 1)
    }
}

/// The template `t` resolved against `args`, the first `{}` placeholder
/// taking the unnamed argument number `pos`; exactly what `resolved`
/// says, with `None` for a malformed template or a missing argument.
fn resolve_from(t: &str, args: &Vec<FmtArg>, pos: usize) -> (r: Option<String>)
    requires
        pos + t@.len() <= usize::MAX,
    ensures
        (r is None) == (resolved(t@, args@, pos as nat) is None),
        r matches Some(s) ==> resolved(t@, args@, pos as nat) == Some(s@),
    decreases t@.len(),
{
    let n = t.unicode_len();
    if n == 0 {
        return Some(String::new());
    }
    let c0 = t.get_char(0);
    if c0 == '{' && n >= 2 && t.get_char(1) == '{' {
        let rest = t.substring_char(2, n);
        proof {
            assert(rest@ =~= t@.skip(2));
        }
        match resolve_from(rest, args, pos) {
            Some(tail) => {
                let mut s = String::new();
                push_char(&mut s, '{');
                s.append(tail.as_str());
                proof {
                    assert(s@ =~= seq!['{'] + tail@);
                }
                Some(s)
            }
            None => None,
        }
    } else if c0 == '}' && n >= 2 && t.get_char(1) == '}' {
        let rest = t.substring_char(2, n);
        proof {
            assert(rest@ =~= t@.skip(2));
        }
        match resolve_from(rest, args, pos) {
            Some(tail) => {
                let mut s = String::new();
                push_char(&mut s, '}');
                s.append(tail.as_str());
                proof {
                    assert(s@ =~= seq!['}'] + tail@);
                }
                Some(s)
            }
            None => None,
        }
    } else if c0 == '{' {
        match find_brace_end(t, 1) {
            Some(j) => {
                let name = t.substring_char(1, j);
                let rest = t.substring_char(j + 1, n);
                proof {
                    assert(rest@ =~= t@.skip(j + 1));
                    assert(name@ =~= t@.subrange(1, j as int));
                }
                let value_opt = if j == 1 {
                    find_positional(args, pos)
                } else {
                    find_named(args, name)
                };
                match value_opt {
                    Some(v) => {
                        let next_pos = if j == 1 {
                            pos + 1
                        } else {
                            pos
                        };
                        match resolve_from(rest, args, next_pos) {
                            Some(tail) => {
                                let mut s = v;
                                s.append(tail.as_str());
                                Some(s)
                            }
                            None => None,
                        }
                    }
                    None => None,
                }
            }
            None => None,
        }
    } else if c0 == '}' {
        None
    } else {
        let rest = t.substring_char(1, n);
        proof {
            assert(rest@ =~= t@.skip(1));
        }
        match resolve_from(rest, args, pos) {
            Some(tail) => {
                let mut s = String::new();
                push_char(&mut s, c0);
                s.append(tail.as_str());
                proof {
                    assert(s@ =~= seq![t@[0]] + tail@);
                }
                Some(s)
            }
            None => None,
        }
    }
}

/// Resolve the value template `t` against the substitution arguments
/// `args`: `{}` placeholders take the unnamed arguments in order,
/// `{name}` placeholders take the argument of that name, `{{` and `}}`
/// stand for literal braces. `None` exactly when `resolved` is `None`:
/// an unmatched brace or a missing argument, a programmer error in the
/// calling script.
pub fn resolve_template(t: &str, args: &Vec<FmtArg>) -> (r: Option<String>)
    ensures
        (r is None) == (resolved(t@, args@, 0) is None),
        r matches Some(s) ==> resolved(t@, args@, 0) == Some(s@),
{
    // The character count fits in usize, which lets the positional
    // counter of `resolve_from` start at zero without overflow.
    let _len: usize = t.unicode_len();
    resolve_from(t, args, 0)
}

} // verus!
