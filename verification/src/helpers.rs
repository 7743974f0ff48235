use vstd::prelude::*;
use vstd::string::StringExecFns;

use crate::emit::{directive_line, emit, newline_count, newline_free};
use crate::emit::{lemma_emits_one_line, lemma_newline_count_concat, lemma_newline_free_concat};
use crate::sink::Sink;
use crate::template::{resolve_template, resolved, FmtArg};

verus! {

/// The lines emitted for a list of plain items under one directive
/// name: one line per item, in the callers' order.
pub open spec fn directive_lines(name: Seq<char>, items: Seq<String>) -> Seq<char>
    decreases items.len(),
{
    if items.len() == 0 {
        Seq::empty()
    } else {
        directive_line(name, items[0]@) + directive_lines(name, items.skip(1))
    }
}

/// Emit one directive line per item, all under `name`, preserving the
/// callers' order.
fn emit_each(sink: &mut Sink, name: &str, items: &Vec<String>)
    ensures
        final(sink)@ == old(sink)@ + directive_lines(name@, items@),
{
    let mut i: usize = 0;
    proof {
        assert(items@.skip(0) =~= items@);
    }
    while i < items.len()
        invariant
            i <= items@.len(),
            old(sink)@ + directive_lines(name@, items@) == sink@ + directive_lines(
                name@,
                items@.skip(i as int),
            ),
        decreases items@.len() - i,
    {
        proof {
            assert(items@.skip(i as int)[0] == items@[i as int]);
            assert(items@.skip(i as int).skip(1) =~= items@.skip(i as int + 1));
        }
        let ghost sink_before: Seq<char> = sink@;
        emit(sink, name, items[i].as_str());
        proof {
            assert(sink@ + directive_lines(name@, items@.skip(i as int + 1)) =~= sink_before
                + directive_lines(name@, items@.skip(i as int)));
        }
        i = i + 1;
    }
    proof {
        assert(items@.skip(items@.len() as int) =~= Seq::<String>::empty());
        assert(sink@ =~= old(sink)@ + directive_lines(name@, items@));
    }
}

/// Passing a list of N items to a multi-item helper produces exactly N
/// lines, one per item and in the items' order: as long as the name
/// and the items hold no newline of their own, the emitted text holds
/// one newline per item.
pub proof fn lemma_one_line_per_item(name: Seq<char>, items: Seq<String>)
    requires
        newline_free(name),
        forall|i: int| 0 <= i < items.len() ==> newline_free(items[i]@),
    ensures
        newline_count(directive_lines(name, items)) == items.len(),
    decreases items.len(),
{
    if items.len() > 0 {
        lemma_emits_one_line(name, items[0]@);
        lemma_newline_count_concat(
            directive_line(name, items[0]@),
            directive_lines(name, items.skip(1)),
        );
        lemma_one_line_per_item(name, items.skip(1));
    }
}

/// Passing a list of N binary/flag pairs produces exactly N lines, one
/// per pair and in the pairs' order, when the name and the pairs hold
/// no newline of their own.
pub proof fn lemma_one_line_per_bin_flag(name: Seq<char>, items: Seq<(String, String)>)
    requires
        newline_free(name),
        forall|i: int|
            0 <= i < items.len() ==> newline_free(items[i].0@) && newline_free(items[i].1@),
    ensures
        newline_count(bin_flag_lines(name, items)) == items.len(),
    decreases items.len(),
{
    if items.len() > 0 {
        let value = bin_flag_value(items[0].0@, items[0].1@);
        assert(newline_free("="@)) by {
            reveal_strlit("=");
        }
        lemma_newline_free_concat(items[0].0@, "="@);
        lemma_newline_free_concat(items[0].0@ + "="@, items[0].1@);
        lemma_emits_one_line(name, value);
        lemma_newline_count_concat(directive_line(name, value), bin_flag_lines(name, items.skip(1)));
        lemma_one_line_per_bin_flag(name, items.skip(1));
    }
}

/// Passing a list of N optionally qualified items produces exactly N
/// lines, one per item and in the items' order, when the name, the
/// items and the kinds hold no newline of their own.
pub proof fn lemma_one_line_per_qualified_item(name: Seq<char>, items: Seq<(String, Option<String>)>)
    requires
        newline_free(name),
        forall|i: int|
            0 <= i < items.len() ==> newline_free(items[i].0@) && (items[i].1 matches Some(k)
                ==> newline_free(k@)),
    ensures
        newline_count(qualified_lines(name, items)) == items.len(),
    decreases items.len(),
{
    if items.len() > 0 {
        let value = qualified_value(items[0].0@, items[0].1);
        assert(newline_free("="@)) by {
            reveal_strlit("=");
        }
        match items[0].1 {
            Some(k) => {
                lemma_newline_free_concat(k@, "="@);
                lemma_newline_free_concat(k@ + "="@, items[0].0@);
            },
            None => {},
        }
        lemma_emits_one_line(name, value);
        lemma_newline_count_concat(
            directive_line(name, value),
            qualified_lines(name, items.skip(1)),
        );
        lemma_one_line_per_qualified_item(name, items.skip(1));
    }
}

/// Tell the orchestrator to rerun the build script when one of the
/// files or directories at `paths` changes: one `rerun-if-changed`
/// line per path, in order.
pub fn rerun_if_changed(sink: &mut Sink, paths: &Vec<String>)
    ensures
        final(sink)@ == old(sink)@ + directive_lines("rerun-if-changed"@, paths@),
{
    emit_each(sink, "rerun-if-changed", paths);
}

/// Tell the orchestrator to rerun the build script when one of the
/// environment variables named in `vars` changes: one
/// `rerun-if-env-changed` line per variable, in order.
pub fn rerun_if_env_changed(sink: &mut Sink, vars: &Vec<String>)
    ensures
        final(sink)@ == old(sink)@ + directive_lines("rerun-if-env-changed"@, vars@),
{
    emit_each(sink, "rerun-if-env-changed", vars);
}

/// Enable a compiler configuration: one `rustc-cfg` line whose value
/// is the feature template resolved against the arguments.
pub fn rustc_cfg(sink: &mut Sink, feature: &str, args: &Vec<FmtArg>)
    requires
        resolved(feature@, args@, 0) is Some,
    ensures
        final(sink)@ == old(sink)@ + directive_line(
            "rustc-cfg"@,
            resolved(feature@, args@, 0).unwrap(),
        ),
{
    let value = resolve_template(feature, args).unwrap();
    emit(sink, "rustc-cfg", value.as_str());
}

/// Assign an environment variable for the compilation: one `rustc-env`
/// line holding `key=value`. The key and the value form one combined
/// template, so substitution arguments are consumed across both.
pub fn rustc_env(sink: &mut Sink, key: &str, value: &str, args: &Vec<FmtArg>)
    requires
        resolved(key@ + "="@ + value@, args@, 0) is Some,
    ensures
        final(sink)@ == old(sink)@ + directive_line(
            "rustc-env"@,
            resolved(key@ + "="@ + value@, args@, 0).unwrap(),
        ),
{
    let mut t = String::from_str(key);
    t.append("=");
    t.append(value);
    let v = resolve_template(t.as_str(), args).unwrap();
    emit(sink, "rustc-env", v.as_str());
}

/// Pass flags to the compiler: one `rustc-flags` line per flag, in
/// order.
pub fn rustc_flags(sink: &mut Sink, flags: &Vec<String>)
    ensures
        final(sink)@ == old(sink)@ + directive_lines("rustc-flags"@, flags@),
{
    emit_each(sink, "rustc-flags", flags);
}

/// Pass linker arguments for cdylib targets: one
/// `rustc-cdylib-link-arg` line per flag, in order.
pub fn rustc_cdylib_link_arg(sink: &mut Sink, flags: &Vec<String>)
    ensures
        final(sink)@ == old(sink)@ + directive_lines("rustc-cdylib-link-arg"@, flags@),
{
    emit_each(sink, "rustc-cdylib-link-arg", flags);
}

/// Pass linker arguments for supported targets: one `rustc-link-arg`
/// line per flag, in order.
pub fn rustc_link_arg(sink: &mut Sink, flags: &Vec<String>)
    ensures
        final(sink)@ == old(sink)@ + directive_lines("rustc-link-arg"@, flags@),
{
    emit_each(sink, "rustc-link-arg", flags);
}

/// Pass linker arguments for all binary targets: one
/// `rustc-link-arg-bins` line per flag, in order.
pub fn rustc_link_arg_bins(sink: &mut Sink, flags: &Vec<String>)
    ensures
        final(sink)@ == old(sink)@ + directive_lines("rustc-link-arg-bins"@, flags@),
{
    emit_each(sink, "rustc-link-arg-bins", flags);
}

/// The value emitted for one binary/flag pair: the binary name and the
/// flag joined by `=`.
pub open spec fn bin_flag_value(bin: Seq<char>, flag: Seq<char>) -> Seq<char> {
    bin + "="@ + flag
}

/// The lines emitted for a list of binary/flag pairs under one
/// directive name, in the callers' order.
pub open spec fn bin_flag_lines(name: Seq<char>, items: Seq<(String, String)>) -> Seq<char>
    decreases items.len(),
{
    if items.len() == 0 {
        Seq::empty()
    } else {
        directive_line(name, bin_flag_value(items[0].0@, items[0].1@)) + bin_flag_lines(
            name,
            items.skip(1),
        )
    }
}

/// Pass a linker argument when building one named binary target: one
/// `rustc-link-arg-bin` line per pair, each holding `binary=flag`, in
/// order.
pub fn rustc_link_arg_bin(sink: &mut Sink, items: &Vec<(String, String)>)
    ensures
        final(sink)@ == old(sink)@ + bin_flag_lines("rustc-link-arg-bin"@, items@),
{
    let mut i: usize = 0;
    proof {
        assert(items@.skip(0) =~= items@);
    }
    while i < items.len()
        invariant
            i <= items@.len(),
            old(sink)@ + bin_flag_lines("rustc-link-arg-bin"@, items@) == sink@ + bin_flag_lines(
                "rustc-link-arg-bin"@,
                items@.skip(i as int),
            ),
        decreases items@.len() - i,
    {
        proof {
            assert(items@.skip(i as int)[0] == items@[i as int]);
            assert(items@.skip(i as int).skip(1) =~= items@.skip(i as int + 1));
        }
        let mut value = String::from_str(items[i].0.as_str());
        value.append("=");
        value.append(items[i].1.as_str());
        let ghost sink_before: Seq<char> = sink@;
        emit(sink, "rustc-link-arg-bin", value.as_str());
        proof {
            assert(value@ =~= bin_flag_value(items@[i as int].0@, items@[i as int].1@));
            assert(sink@ + bin_flag_lines("rustc-link-arg-bin"@, items@.skip(i as int + 1))
                =~= sink_before + bin_flag_lines("rustc-link-arg-bin"@, items@.skip(i as int)));
        }
        i = i + 1;
    }
    proof {
        assert(items@.skip(items@.len() as int) =~= Seq::<(String, String)>::empty());
        assert(sink@ =~= old(sink)@ + bin_flag_lines("rustc-link-arg-bin"@, items@));
    }
}

/// The value emitted for an item with an optional kind qualifier: the
/// bare item when no kind is supplied, `kind=item` when one is.
pub open spec fn qualified_value(item: Seq<char>, kind: Option<String>) -> Seq<char> {
    match kind {
        Some(k) => k@ + "="@ + item,
        None => item,
    }
}

/// The lines emitted for a list of optionally qualified items under
/// one directive name, in the callers' order.
pub open spec fn qualified_lines(name: Seq<char>, items: Seq<(String, Option<String>)>) -> Seq<
    char,
>
    decreases items.len(),
{
    if items.len() == 0 {
        Seq::empty()
    } else {
        directive_line(name, qualified_value(items[0].0@, items[0].1)) + qualified_lines(
            name,
            items.skip(1),
        )
    }
}

/// Emit one directive line per optionally qualified item, all under
/// `name`, preserving the callers' order.
fn emit_each_qualified(sink: &mut Sink, name: &str, items: &Vec<(String, Option<String>)>)
    ensures
        final(sink)@ == old(sink)@ + qualified_lines(name@, items@),
{
    let mut i: usize = 0;
    proof {
        assert(items@.skip(0) =~= items@);
    }
    while i < items.len()
        invariant
            i <= items@.len(),
            old(sink)@ + qualified_lines(name@, items@) == sink@ + qualified_lines(
                name@,
                items@.skip(i as int),
            ),
        decreases items@.len() - i,
    {
        proof {
            assert(items@.skip(i as int)[0] == items@[i as int]);
            assert(items@.skip(i as int).skip(1) =~= items@.skip(i as int + 1));
        }
        let value: String = match &items[i].1 {
            Option::Some(kind) => {
                let mut v = String::from_str(kind.as_str());
                v.append("=");
                v.append(items[i].0.as_str());
                v
            }
            Option::None => items[i].0.clone(),
        };
        proof {
            assert(value@ =~= qualified_value(items@[i as int].0@, items@[i as int].1));
        }
        let ghost sink_before: Seq<char> = sink@;
        emit(sink, name, value.as_str());
        proof {
            assert(sink@ + qualified_lines(name@, items@.skip(i as int + 1)) =~= sink_before
                + qualified_lines(name@, items@.skip(i as int)));
        }
        i = i + 1;
    }
    proof {
        assert(items@.skip(items@.len() as int) =~= Seq::<(String, Option<String>)>::empty());
        assert(sink@ =~= old(sink)@ + qualified_lines(name@, items@));
    }
}

/// Link libraries: one `rustc-link-lib` line per library, in order,
/// holding the bare name, or `kind=name` when a linkage kind is
/// supplied.
pub fn rustc_link_lib(sink: &mut Sink, libs: &Vec<(String, Option<String>)>)
    ensures
        final(sink)@ == old(sink)@ + qualified_lines("rustc-link-lib"@, libs@),
{
    emit_each_qualified(sink, "rustc-link-lib", libs);
}

/// Add library search paths: one `rustc-link-search` line per path, in
/// order, holding the bare path, or `kind=path` when a search kind is
/// supplied.
pub fn rustc_link_search(sink: &mut Sink, paths: &Vec<(String, Option<String>)>)
    ensures
        final(sink)@ == old(sink)@ + qualified_lines("rustc-link-search"@, paths@),
{
    emit_each_qualified(sink, "rustc-link-search", paths);
}

/// Show a diagnostic warning: one `warning` line whose value is the
/// message template resolved against the arguments.
pub fn warning(sink: &mut Sink, message: &str, args: &Vec<FmtArg>)
    requires
        resolved(message@, args@, 0) is Some,
    ensures
        final(sink)@ == old(sink)@ + directive_line(
            "warning"@,
            resolved(message@, args@, 0).unwrap(),
        ),
{
    let value = resolve_template(message, args).unwrap();
    emit(sink, "warning", value.as_str());
}

} // verus!
