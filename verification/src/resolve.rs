//! The message resolver: looks a key up in the active bundle, formats its
//! pattern with the given named arguments, and applies the degrade-or-abort
//! policy at each failure point.

use vstd::prelude::*;
use crate::args::{ArgValue, ArgView, FormatOutcome};
use crate::bridge::{
    args_model, args_new, args_set, bundle_format, bundle_messages, empty_args_map, formatted_of,
    stored_arg_view,
};
use crate::registry::RuntimeRegistry;
use crate::strorder::{lex_le, str_le};
use crate::system::LanguageSystem;

verus! {

/// Model of a failed resolution.
pub ghost enum ResolveFailView {
    Uninitialized,
    NoSuchMessage(Seq<char>),
    NoValueFound(Seq<char>),
}

/// Why a resolution failed: the registry was never initialized, the key
/// has no message, or the message has no value pattern. Under the degrade
/// policy the latter two turn into placeholder text instead.
#[derive(Debug)]
pub enum ResolveError {
    Uninitialized,
    NoSuchMessage(String),
    NoValueFound(String),
}

impl View for ResolveError {
    type V = ResolveFailView;

    open spec fn view(&self) -> ResolveFailView {
        match self {
            ResolveError::Uninitialized => ResolveFailView::Uninitialized,
            ResolveError::NoSuchMessage(k) => ResolveFailView::NoSuchMessage(k@),
            ResolveError::NoValueFound(k) => ResolveFailView::NoValueFound(k@),
        }
    }
}

/// The model of a resolution result.
pub open spec fn result_view(r: Result<String, ResolveError>) -> Result<Seq<char>, ResolveFailView> {
    match r {
        Ok(s) => Ok(s@),
        Err(e) => Err(e@),
    }
}

/// The placeholder the degrade policy renders: the error kind and the
/// offending subject, visibly marked.
pub open spec fn replacement_view(err: Seq<char>, shown: Seq<char>) -> Seq<char> {
    "<"@ + err + " - "@ + shown + ">"@
}

/// The names joined onto a subject: a comma before each name.
pub open spec fn joined_names(names: Seq<Seq<char>>) -> Seq<char>
    decreases names.len(),
{
    if names.len() == 0 {
        Seq::empty()
    } else {
        joined_names(names.drop_last()) + ","@ + names.last()
    }
}

/// The decorated subject of a lookup with arguments: the bracketed key
/// followed by the argument names.
pub open spec fn params_key_view(key: Seq<char>, names: Seq<Seq<char>>) -> Seq<char> {
    "[<"@ + key + ">"@ + joined_names(names) + "]"@
}

/// Insertion of one name into an ordered name list.
pub open spec fn insert_name(s: Seq<Seq<char>>, v: Seq<char>) -> Seq<Seq<char>>
    decreases s.len(),
{
    if s.len() == 0 {
        seq![v]
    } else if lex_le(v, s[0]) {
        seq![v] + s
    } else {
        seq![s[0]] + insert_name(s.drop_first(), v)
    }
}

/// The lexicographically ordered permutation of a name list: insertion
/// sort under `lex_le`.
pub open spec fn sort_names(s: Seq<Seq<char>>) -> Seq<Seq<char>>
    decreases s.len(),
{
    if s.len() == 0 {
        Seq::empty()
    } else {
        insert_name(sort_names(s.drop_last()), s.last())
    }
}

/// The subject a placeholder echoes: the bare key for the zero-argument
/// lookup form, else the bracketed key with the sorted argument names.
pub open spec fn shown_subject(key: Seq<char>, names: Option<Seq<Seq<char>>>) -> Seq<char> {
    match names {
        None => key,
        Some(ns) => params_key_view(key, sort_names(ns)),
    }
}

/// What resolving a key against a language system yields, as a function of
/// the system, the key, the argument names and the argument values: the
/// formatted pattern on a hit; on a missing message or a missing value
/// pattern, placeholder text under the degrade policy and an error
/// otherwise.
pub open spec fn lookup_view(
    sys: LanguageSystem,
    key: Seq<char>,
    names: Option<Seq<Seq<char>>>,
    argm: Option<Map<Seq<char>, ArgView>>,
) -> Result<Seq<char>, ResolveFailView> {
    let msgs = bundle_messages(sys.bundle);
    if !msgs.contains_key(key) {
        if sys.donnot_panic {
            Ok(replacement_view("NoSuchMessage"@, shown_subject(key, names)))
        } else {
            Err(ResolveFailView::NoSuchMessage(key))
        }
    } else if !msgs[key] {
        if sys.donnot_panic {
            Ok(replacement_view("NoValueFound"@, shown_subject(key, names)))
        } else {
            Err(ResolveFailView::NoValueFound(key))
        }
    } else {
        Ok(formatted_of(sys.bundle, key, argm))
    }
}

/// `lookup_view` lifted to the registry: resolving before initialization
/// fails, whatever the policy.
pub open spec fn resolve_view(
    reg: RuntimeRegistry,
    key: Seq<char>,
    names: Option<Seq<Seq<char>>>,
    argm: Option<Map<Seq<char>, ArgView>>,
) -> Result<Seq<char>, ResolveFailView> {
    if !reg.is_initialized() {
        Err(ResolveFailView::Uninitialized)
    } else {
        lookup_view(reg.active(), key, names, argm)
    }
}

/// The names of an argument list, in call order.
pub open spec fn args_names(pairs: Seq<(String, ArgValue)>) -> Seq<Seq<char>> {
    pairs.map_values(|p: (String, ArgValue)| p.0@)
}

/// The argument map an argument list builds, each value as the formatter
/// stores it: later values replace earlier ones under the same name.
pub open spec fn args_map_of(pairs: Seq<(String, ArgValue)>) -> Map<Seq<char>, ArgView>
    decreases pairs.len(),
{
    if pairs.len() == 0 {
        empty_args_map()
    } else {
        args_map_of(pairs.drop_last()).insert(pairs.last().0@, stored_arg_view(pairs.last().1@))
    }
}

/// The map holding one named argument, as stored.
pub open spec fn one_arg_map(n1: Seq<char>, v1: ArgView) -> Map<Seq<char>, ArgView> {
    empty_args_map().insert(n1, stored_arg_view(v1))
}

/// The map holding two named arguments, in call order, as stored.
pub open spec fn two_arg_map(n1: Seq<char>, v1: ArgView, n2: Seq<char>, v2: ArgView) -> Map<
    Seq<char>,
    ArgView,
> {
    one_arg_map(n1, v1).insert(n2, stored_arg_view(v2))
}

/// The map holding three named arguments, in call order, as stored.
pub open spec fn three_arg_map(
    n1: Seq<char>,
    v1: ArgView,
    n2: Seq<char>,
    v2: ArgView,
    n3: Seq<char>,
    v3: ArgView,
) -> Map<Seq<char>, ArgView> {
    two_arg_map(n1, v1, n2, v2).insert(n3, stored_arg_view(v3))
}

/// The visibly marked placeholder for an error kind and a subject.
pub fn make_error_replacement(err: &str, msg_to_show: &str) -> (r: String)
    ensures
        r@ == replacement_view(err@, msg_to_show@),
{
    let mut s = String::from_str("<");
    s.append(err);
    s.append(" - ");
    s.append(msg_to_show);
    s.append(">");
    s
}

proof fn lemma_insert_name_at(s: Seq<Seq<char>>, v: Seq<char>, idx: int)
    requires
        0 <= idx <= s.len(),
        forall|j: int| 0 <= j < idx ==> !lex_le(v, s[j]),
        idx < s.len() ==> lex_le(v, s[idx]),
    ensures
        insert_name(s, v) == s.insert(idx, v),
    decreases idx,
{
    if s.len() == 0 {
        assert(insert_name(s, v) =~= s.insert(0, v));
    } else if idx == 0 {
        assert(insert_name(s, v) =~= s.insert(0, v));
    } else {
        let t = s.drop_first();
        assert(forall|j: int| 0 <= j < idx - 1 ==> t[j] == s[j + 1]);
        assert(idx - 1 < t.len() ==> t[idx - 1] == s[idx]);
        lemma_insert_name_at(t, v, idx - 1);
        assert(seq![s[0]] + t.insert(idx - 1, v) =~= s.insert(idx, v));
    }
}

/// The argument names of a lookup, sorted for the placeholder echo.
fn sorted_names(pairs: &Vec<(String, ArgValue)>) -> (r: Vec<String>)
    ensures
        r.deep_view() == sort_names(args_names(pairs@)),
{
    let ghost orig = args_names(pairs@);
    let mut out: Vec<String> = Vec::new();
    let n = pairs.len();
    let mut i: usize = 0;
    proof {
        assert(out.deep_view() =~= sort_names(orig.take(0)));
    }
    while i < n
        invariant
            i <= n,
            n == pairs@.len(),
            orig == args_names(pairs@),
            out.deep_view() =~= sort_names(orig.take(i as int)),
        decreases n - i,
    {
        let v = pairs[i].0.clone();
        let ghost out0 = out.deep_view();
        let mut idx: usize = 0;
        while idx < out.len() && !str_le(v.as_str(), out[idx].as_str())
            invariant
                idx <= out@.len(),
                out.deep_view() == out0,
                v@ == orig[i as int],
                forall|j: int| 0 <= j < idx ==> !lex_le(v@, out0[j]),
            decreases out@.len() - idx,
        {
            idx = idx + 1;
        }
        proof {
            lemma_insert_name_at(out0, v@, idx as int);
        }
        out.insert(idx, v);
        proof {
            assert(out.deep_view() =~= out0.insert(idx as int, orig[i as int]));
            assert(orig.take(i + 1).drop_last() =~= orig.take(i as int));
            assert(orig.take(i + 1).last() == orig[i as int]);
        }
        i = i + 1;
    }
    proof {
        assert(orig.take(n as int) =~= orig);
    }
    out
}

/// The decorated lookup subject: the bracketed key followed by every given
/// name, in the given order.
pub fn concat_parameters_key(msg_key: &str, names: &Vec<String>) -> (r: String)
    ensures
        r@ == params_key_view(msg_key@, names.deep_view()),
{
    let mut s = String::from_str("[<");
    s.append(msg_key);
    s.append(">");
    let n = names.len();
    let mut i: usize = 0;
    proof {
        assert(names.deep_view().take(0) =~= Seq::<Seq<char>>::empty());
        assert(s@ =~= "[<"@ + msg_key@ + ">"@ + joined_names(names.deep_view().take(0)));
    }
    while i < n
        invariant
            i <= n,
            n == names@.len(),
            s@ == "[<"@ + msg_key@ + ">"@ + joined_names(names.deep_view().take(i as int)),
        decreases n - i,
    {
        s.append(",");
        s.append(names[i].as_str());
        proof {
            let dv = names.deep_view();
            assert(dv.take(i + 1).drop_last() =~= dv.take(i as int));
            assert(dv.take(i + 1).last() == dv[i as int]);
            assert(s@ =~= "[<"@ + msg_key@ + ">"@ + joined_names(dv.take(i + 1)));
        }
        i = i + 1;
    }
    proof {
        assert(names.deep_view().take(n as int) =~= names.deep_view());
    }
    s.append("]");
    proof {
        assert(s@ =~= params_key_view(msg_key@, names.deep_view()));
    }
    s
}

fn degrade_replacement(kind: &str, msg_key: &str, pairs: &Vec<(String, ArgValue)>) -> (r: String)
    ensures
        r@ == replacement_view(kind@, shown_subject(msg_key@, Some(args_names(pairs@)))),
{
    let names = sorted_names(pairs);
    let shown = concat_parameters_key(msg_key, &names);
    make_error_replacement(kind, shown.as_str())
}

/// Resolve a key with named arguments against the active language system.
pub fn build_language(reg: &RuntimeRegistry, msg_key: &str, args_pairs: Vec<(String, ArgValue)>) -> (r:
    Result<String, ResolveError>)
    ensures
        result_view(r) == resolve_view(
            *reg,
            msg_key@,
            Some(args_names(args_pairs@)),
            Some(args_map_of(args_pairs@)),
        ),
{
    let sys = match reg.state_ref() {
        None => {
            return Err(ResolveError::Uninitialized);
        },
        Some(sys) => sys,
    };
    let mut fargs = args_new();
    let n = args_pairs.len();
    let mut i: usize = 0;
    proof {
        assert(args_map_of(args_pairs@.take(0)) =~= empty_args_map());
    }
    while i < n
        invariant
            i <= n,
            n == args_pairs@.len(),
            args_model(fargs) == args_map_of(args_pairs@.take(i as int)),
        decreases n - i,
    {
        args_set(&mut fargs, args_pairs[i].0.as_str(), &args_pairs[i].1);
        proof {
            assert(args_pairs@.take(i + 1).drop_last() =~= args_pairs@.take(i as int));
            assert(args_pairs@.take(i + 1).last() == args_pairs@[i as int]);
        }
        i = i + 1;
    }
    proof {
        assert(args_pairs@.take(n as int) =~= args_pairs@);
    }
    match bundle_format(&sys.bundle, msg_key, Some(&fargs)) {
        FormatOutcome::Done(text) => Ok(text),
        FormatOutcome::Missing => {
            if sys.donnot_panic {
                Ok(degrade_replacement("NoSuchMessage", msg_key, &args_pairs))
            } else {
                Err(ResolveError::NoSuchMessage(String::from_str(msg_key)))
            }
        },
        FormatOutcome::NoValue => {
            if sys.donnot_panic {
                Ok(degrade_replacement("NoValueFound", msg_key, &args_pairs))
            } else {
                Err(ResolveError::NoValueFound(String::from_str(msg_key)))
            }
        },
    }
}

/// Resolve a key that takes no arguments; the placeholder echoes the bare
/// key, with no bracket wrapper.
pub fn build_language_0(reg: &RuntimeRegistry, msg_key: &str) -> (r: Result<String, ResolveError>)
    ensures
        result_view(r) == resolve_view(*reg, msg_key@, None, None),
{
    let sys = match reg.state_ref() {
        None => {
            return Err(ResolveError::Uninitialized);
        },
        Some(sys) => sys,
    };
    match bundle_format(&sys.bundle, msg_key, None) {
        FormatOutcome::Done(text) => Ok(text),
        FormatOutcome::Missing => {
            if sys.donnot_panic {
                Ok(make_error_replacement("NoSuchMessage", msg_key))
            } else {
                Err(ResolveError::NoSuchMessage(String::from_str(msg_key)))
            }
        },
        FormatOutcome::NoValue => {
            if sys.donnot_panic {
                Ok(make_error_replacement("NoValueFound", msg_key))
            } else {
                Err(ResolveError::NoValueFound(String::from_str(msg_key)))
            }
        },
    }
}

/// Resolve a key with one named argument.
pub fn build_language_1(reg: &RuntimeRegistry, msg_key: &str, arg_name: &str, v: ArgValue) -> (r:
    Result<String, ResolveError>)
    ensures
        result_view(r) == resolve_view(
            *reg,
            msg_key@,
            Some(seq![arg_name@]),
            Some(one_arg_map(arg_name@, v@)),
        ),
{
    let ghost vv = v@;
    let pairs = vec![(String::from_str(arg_name), v)];
    proof {
        assert(args_names(pairs@) =~= seq![arg_name@]);
        let e = Seq::<(String, ArgValue)>::empty();
        assert(pairs@.drop_last() =~= e);
        assert(args_map_of(e) == empty_args_map());
        assert(args_map_of(pairs@) == args_map_of(e).insert(pairs@.last().0@, stored_arg_view(pairs@.last().1@)));
        assert(args_map_of(pairs@) == one_arg_map(arg_name@, vv));
    }
    build_language(reg, msg_key, pairs)
}

/// Resolve a key with two named arguments.
pub fn build_language_2(
    reg: &RuntimeRegistry,
    msg_key: &str,
    arg1_name: &str,
    v1: ArgValue,
    arg2_name: &str,
    v2: ArgValue,
) -> (r: Result<String, ResolveError>)
    ensures
        result_view(r) == resolve_view(
            *reg,
            msg_key@,
            Some(seq![arg1_name@, arg2_name@]),
            Some(two_arg_map(arg1_name@, v1@, arg2_name@, v2@)),
        ),
{
    let ghost vv1 = v1@;
    let ghost vv2 = v2@;
    let pairs = vec![(String::from_str(arg1_name), v1), (String::from_str(arg2_name), v2)];
    proof {
        assert(args_names(pairs@) =~= seq![arg1_name@, arg2_name@]);
        let e = Seq::<(String, ArgValue)>::empty();
        let s1 = pairs@.drop_last();
        assert(s1.drop_last() =~= e);
        assert(args_map_of(e) == empty_args_map());
        assert(args_map_of(s1) == args_map_of(e).insert(s1.last().0@, stored_arg_view(s1.last().1@)));
        assert(s1.last() == pairs@[0]);
        assert(args_map_of(s1) == one_arg_map(arg1_name@, vv1));
        assert(args_map_of(pairs@) == args_map_of(s1).insert(pairs@.last().0@, stored_arg_view(pairs@.last().1@)));
        assert(args_map_of(pairs@) == two_arg_map(arg1_name@, vv1, arg2_name@, vv2));
    }
    build_language(reg, msg_key, pairs)
}

/// Resolve a key with three named arguments.
pub fn build_language_3(
    reg: &RuntimeRegistry,
    msg_key: &str,
    arg1_name: &str,
    v1: ArgValue,
    arg2_name: &str,
    v2: ArgValue,
    arg3_name: &str,
    v3: ArgValue,
) -> (r: Result<String, ResolveError>)
    ensures
        result_view(r) == resolve_view(
            *reg,
            msg_key@,
            Some(seq![arg1_name@, arg2_name@, arg3_name@]),
            Some(three_arg_map(arg1_name@, v1@, arg2_name@, v2@, arg3_name@, v3@)),
        ),
{
    let ghost vv1 = v1@;
    let ghost vv2 = v2@;
    let ghost vv3 = v3@;
    let pairs = vec![
        (String::from_str(arg1_name), v1),
        (String::from_str(arg2_name), v2),
        (String::from_str(arg3_name), v3),
    ];
    proof {
        assert(args_names(pairs@) =~= seq![arg1_name@, arg2_name@, arg3_name@]);
        let e = Seq::<(String, ArgValue)>::empty();
        let s2 = pairs@.drop_last();
        let s1 = s2.drop_last();
        assert(s1.drop_last() =~= e);
        assert(args_map_of(e) == empty_args_map());
        assert(args_map_of(s1) == args_map_of(e).insert(s1.last().0@, stored_arg_view(s1.last().1@)));
        assert(s1.last() == pairs@[0]);
        assert(args_map_of(s1) == one_arg_map(arg1_name@, vv1));
        assert(args_map_of(s2) == args_map_of(s1).insert(s2.last().0@, stored_arg_view(s2.last().1@)));
        assert(s2.last() == pairs@[1]);
        assert(args_map_of(s2) == two_arg_map(arg1_name@, vv1, arg2_name@, vv2));
        assert(args_map_of(pairs@) == args_map_of(s2).insert(pairs@.last().0@, stored_arg_view(pairs@.last().1@)));
        assert(args_map_of(pairs@) == three_arg_map(
            arg1_name@,
            vv1,
            arg2_name@,
            vv2,
            arg3_name@,
            vv3,
        ));
    }
    build_language(reg, msg_key, pairs)
}

/// Resolve a key with lazily built named arguments: each builder is run
/// once, in call order, and the results are resolved like eagerly given
/// arguments under the same names.
pub fn build_language_fns<F: FnOnce() -> ArgValue>(
    reg: &RuntimeRegistry,
    msg_key: &str,
    args_pairs_builders: Vec<(String, F)>,
) -> (r: Result<String, ResolveError>)
    requires
        forall|i: int|
            0 <= i < args_pairs_builders@.len() ==> call_requires(
                #[trigger] args_pairs_builders@[i].1,
                (),
            ),
    ensures
        exists|pairs: Seq<(String, ArgValue)>|
            {
                &&& pairs.len() == args_pairs_builders@.len()
                &&& (forall|i: int|
                    0 <= i < pairs.len() ==> (#[trigger] pairs[i]).0@
                        == args_pairs_builders@[i].0@)
                &&& (forall|i: int|
                    0 <= i < pairs.len() ==> call_ensures(
                        args_pairs_builders@[i].1,
                        (),
                        (#[trigger] pairs[i]).1,
                    ))
                &&& result_view(r) == resolve_view(
                    *reg,
                    msg_key@,
                    Some(args_names(pairs)),
                    Some(args_map_of(pairs)),
                )
            },
{
    let ghost orig = args_pairs_builders@;
    let mut rest = args_pairs_builders;
    let mut evaluated: Vec<(String, ArgValue)> = Vec::new();
    while rest.len() != 0
        invariant
            rest@.len() <= orig.len(),
            evaluated@.len() == orig.len() - rest@.len(),
            rest@ =~= orig.skip(orig.len() - rest@.len() as int),
            forall|i: int|
                0 <= i < rest@.len() ==> call_requires(#[trigger] rest@[i].1, ()),
            forall|j: int|
                0 <= j < evaluated@.len() ==> (#[trigger] evaluated@[j]).0@ == orig[j].0@,
            forall|j: int|
                0 <= j < evaluated@.len() ==> call_ensures(
                    orig[j].1,
                    (),
                    (#[trigger] evaluated@[j]).1,
                ),
        decreases rest@.len(),
    {
        let ghost done = orig.len() - rest@.len() as int;
        let ghost pre = rest@;
        let p = rest.remove(0);
        proof {
            assert(p == pre[0]);
            assert(pre[0] == orig[done]);
            assert(rest@ =~= orig.skip(done + 1));
        }
        let (name, builder) = p;
        let value = builder();
        evaluated.push((name, value));
    }
    let ghost ev = evaluated@;
    let r = build_language(reg, msg_key, evaluated);
    proof {
        assert(ev.len() == orig.len());
        assert(result_view(r) == resolve_view(
            *reg,
            msg_key@,
            Some(args_names(ev)),
            Some(args_map_of(ev)),
        ));
    }
    r
}

} // verus!
