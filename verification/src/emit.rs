use vstd::prelude::*;
use vstd::string::StringExecFns;

use crate::sink::Sink;
use crate::template::{resolve_template, resolved, FmtArg};

verus! {

/// The fixed protocol prefix that the build orchestrator recognizes at
/// the start of every directive line.
pub open spec fn protocol_prefix() -> Seq<char> {
    "cargo:"@
}

/// One directive line: the protocol prefix, the directive name, `=`,
/// the value, and a single terminating newline.
pub open spec fn directive_line(name: Seq<char>, value: Seq<char>) -> Seq<char> {
    protocol_prefix() + name + "="@ + value + "\n"@
}

/// Write one directive line with a literal name and value: exactly
/// `cargo:<name>=<value>` and a newline are appended to the sink, in a
/// single write.
pub fn emit(sink: &mut Sink, name: &str, value: &str)
    ensures
        final(sink)@ == old(sink)@ + directive_line(name@, value@),
        (*final(sink)) is Capture <==> (*old(sink)) is Capture,
{
    let mut line = String::from_str("cargo:");
    line.append(name);
    line.append("=");
    line.append(value);
    line.append("\n");
    sink.write_str(line.as_str());
    proof {
        assert(sink@ =~= old(sink)@ + directive_line(name@, value@));
    }
}

/// The line `pair` writes: the key and value templates joined by `=`,
/// resolved against the arguments, behind the protocol prefix.
pub open spec fn pair_line(key: Seq<char>, value: Seq<char>, args: Seq<FmtArg>) -> Seq<char> {
    protocol_prefix() + resolved(key + "="@ + value, args, 0).unwrap() + "\n"@
}

/// Emit one key/value pair as a single directive line: the base
/// operation that every directive helper builds on. The key and the
/// value form one combined template, so substitution arguments are
/// consumed across both, in the callers' order.
pub fn pair(sink: &mut Sink, key: &str, value: &str, args: &Vec<FmtArg>)
    requires
        resolved(key@ + "="@ + value@, args@, 0) is Some,
    ensures
        final(sink)@ == old(sink)@ + pair_line(key@, value@, args@),
        (*final(sink)) is Capture <==> (*old(sink)) is Capture,
{
    let mut t = String::from_str(key);
    t.append("=");
    t.append(value);
    let resolved_text = resolve_template(t.as_str(), args).unwrap();
    let mut line = String::from_str("cargo:");
    line.append(resolved_text.as_str());
    line.append("\n");
    sink.write_str(line.as_str());
    proof {
        assert(sink@ =~= old(sink)@ + pair_line(key@, value@, args@));
    }
}

/// No character of `s` is a newline.
pub open spec fn newline_free(s: Seq<char>) -> bool {
    forall|i: int| 0 <= i < s.len() ==> s[i] != '\n'
}

/// The number of newline characters in `s`: the number of complete
/// lines `s` holds when it ends with a newline.
pub open spec fn newline_count(s: Seq<char>) -> nat
    decreases s.len(),
{
    if s.len() == 0 {
        0
    } else {
        (if s[0] == '\n' {
            1nat
        } else {
            0nat
        }) + newline_count(s.skip(1))
    }
}

pub proof fn lemma_newline_count_concat(a: Seq<char>, b: Seq<char>)
    ensures
        newline_count(a + b) == newline_count(a) + newline_count(b),
    decreases a.len(),
{
    if a.len() == 0 {
        assert(a + b =~= b);
    } else {
        assert((a + b).skip(1) =~= a.skip(1) + b);
        lemma_newline_count_concat(a.skip(1), b);
    }
}

pub proof fn lemma_newline_free_concat(a: Seq<char>, b: Seq<char>)
    requires
        newline_free(a),
        newline_free(b),
    ensures
        newline_free(a + b),
{
    assert forall|i: int| 0 <= i < (a + b).len() implies (a + b)[i] != '\n' by {
        if i < a.len() {
            assert((a + b)[i] == a[i]);
        } else {
            assert((a + b)[i] == b[i - a.len()]);
        }
    }
}

pub proof fn lemma_newline_free_count(s: Seq<char>)
    requires
        newline_free(s),
    ensures
        newline_count(s) == 0,
    decreases s.len(),
{
    if s.len() > 0 {
        lemma_newline_free_count(s.skip(1));
    }
}

/// Emitting one directive produces exactly one line: as long as the
/// name and the value hold no newline of their own, the emitted text
/// ends in a newline, holds no other newline, and is exactly the
/// prefix, the name, `=`, and the value, in that shape.
pub proof fn lemma_emits_one_line(name: Seq<char>, value: Seq<char>)
    requires
        newline_free(name),
        newline_free(value),
    ensures
        directive_line(name, value) == protocol_prefix() + name + "="@ + value + "\n"@,
        directive_line(name, value).last() == '\n',
        newline_count(directive_line(name, value)) == 1,
{
    reveal_strlit("cargo:");
    reveal_strlit("=");
    reveal_strlit("\n");
    let line = directive_line(name, value);
    assert(line.last() == '\n');
    lemma_newline_free_count("cargo:"@);
    lemma_newline_free_count(name);
    lemma_newline_free_count("="@);
    lemma_newline_free_count(value);
    lemma_newline_count_concat("cargo:"@, name);
    lemma_newline_count_concat("cargo:"@ + name, "="@);
    lemma_newline_count_concat("cargo:"@ + name + "="@, value);
    lemma_newline_count_concat("cargo:"@ + name + "="@ + value, "\n"@);
    assert(newline_count("\n"@) == 1) by {
        reveal_strlit("\n");
        assert(newline_count(Seq::<char>::empty()) == 0);
        assert("\n"@.skip(1) =~= Seq::<char>::empty());
        assert("\n"@[0] == '\n');
    }
}

/// A `pair` call also produces exactly one line: as long as the
/// resolved text holds no newline, what `pair` appends ends in a
/// newline and holds no other.
pub proof fn lemma_pair_emits_one_line(key: Seq<char>, value: Seq<char>, args: Seq<FmtArg>)
    requires
        resolved(key + "="@ + value, args, 0) matches Some(r) && newline_free(r),
    ensures
        pair_line(key, value, args).last() == '\n',
        newline_count(pair_line(key, value, args)) == 1,
{
    reveal_strlit("cargo:");
    reveal_strlit("\n");
    let body = resolved(key + "="@ + value, args, 0).unwrap();
    lemma_newline_free_count("cargo:"@);
    lemma_newline_free_count(body);
    lemma_newline_count_concat("cargo:"@, body);
    lemma_newline_count_concat("cargo:"@ + body, "\n"@);
    assert(newline_count("\n"@) == 1) by {
        reveal_strlit("\n");
        assert(newline_count(Seq::<char>::empty()) == 0);
        assert("\n"@.skip(1) =~= Seq::<char>::empty());
        assert("\n"@[0] == '\n');
    }
}

} // verus!
