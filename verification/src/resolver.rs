//! Turning a configuration's declared dynamic arguments and supplied values
//! into the ordered command-line token list, enforcing the required,
//! default and positional rules.

use vstd::prelude::*;
use crate::config::{ArgDefView, ArgType, McpConfig, McpConfigView};
use crate::strmap::{assoc_contains, assoc_get};

verus! {

/// The tokens one declared dynamic argument contributes: nothing when no
/// value or an empty value is supplied; the bare value for a positional
/// argument; the flag alone for a Boolean; otherwise the flag and then the
/// value.
pub open spec fn spec_arg_tokens(arg: ArgDefView, values: Seq<(Seq<char>, Seq<char>)>) -> Seq<
    Seq<char>,
> {
    match assoc_get(values, arg.name) {
        None => seq![],
        Some(v) => if v.len() == 0 {
            seq![]
        } else if arg.flag.len() == 0 {
            seq![v]
        } else if arg.value_type is Boolean {
            seq![arg.flag]
        } else {
            seq![arg.flag, v]
        },
    }
}

/// The name of the first declared argument that is required but has no
/// supplied value, walking the declarations in order.
pub open spec fn spec_first_missing(
    args: Seq<ArgDefView>,
    values: Seq<(Seq<char>, Seq<char>)>,
) -> Option<Seq<char>>
    decreases args.len(),
{
    if args.len() == 0 {
        None
    } else if assoc_get(values, args[0].name) is None && args[0].required {
        Some(args[0].name)
    } else {
        spec_first_missing(args.skip(1), values)
    }
}

/// Tokens of all declared dynamic arguments, in declaration order.
pub open spec fn spec_dynamic_tokens(
    args: Seq<ArgDefView>,
    values: Seq<(Seq<char>, Seq<char>)>,
) -> Seq<Seq<char>>
    decreases args.len(),
{
    if args.len() == 0 {
        seq![]
    } else {
        spec_arg_tokens(args[0], values) + spec_dynamic_tokens(args.skip(1), values)
    }
}

/// The full token list: the command, the static arguments, then the
/// flattened dynamic arguments in declaration order.
pub open spec fn spec_command_tokens(c: McpConfigView) -> Seq<Seq<char>> {
    seq![c.command] + c.base_args + spec_dynamic_tokens(c.dynamic_args, c.arg_values)
}

/// What token resolution returns: the full token list, unless a required
/// argument has no supplied value, in which case the first such argument's
/// name.
pub open spec fn spec_build_command_tokens(c: McpConfigView) -> Result<Seq<Seq<char>>, Seq<char>> {
    match spec_first_missing(c.dynamic_args, c.arg_values) {
        Some(name) => Err(name),
        None => Ok(spec_command_tokens(c)),
    }
}

/// A required dynamic argument whose name has no supplied value.
#[derive(Debug)]
pub struct MissingArgError {
    pub name: String,
}

proof fn lemma_dynamic_tokens_push(
    args: Seq<ArgDefView>,
    a: ArgDefView,
    values: Seq<(Seq<char>, Seq<char>)>,
)
    ensures
        spec_dynamic_tokens(args.push(a), values) == spec_dynamic_tokens(args, values)
            + spec_arg_tokens(a, values),
    decreases args.len(),
{
    if args.len() == 0 {
        assert(args.push(a)[0] == a);
        assert(args.push(a).skip(1) =~= Seq::<ArgDefView>::empty());
        assert(spec_dynamic_tokens(args.push(a).skip(1), values) == Seq::<Seq<char>>::empty());
        assert(spec_dynamic_tokens(args.push(a), values) == spec_arg_tokens(a, values) + Seq::<
            Seq<char>,
        >::empty());
        assert(spec_arg_tokens(a, values) + Seq::<Seq<char>>::empty() =~= spec_arg_tokens(
            a,
            values,
        ));
        assert(spec_dynamic_tokens(args, values) == Seq::<Seq<char>>::empty());
        assert(spec_dynamic_tokens(args, values) + spec_arg_tokens(a, values) =~= spec_arg_tokens(
            a,
            values,
        ));
    } else {
        assert(args.push(a)[0] == args[0]);
        assert(args.push(a).skip(1) =~= args.skip(1).push(a));
        lemma_dynamic_tokens_push(args.skip(1), a, values);
        assert(spec_dynamic_tokens(args.push(a), values) == spec_arg_tokens(args[0], values)
            + spec_dynamic_tokens(args.skip(1).push(a), values));
        assert(spec_dynamic_tokens(args, values) == spec_arg_tokens(args[0], values)
            + spec_dynamic_tokens(args.skip(1), values));
        assert(spec_arg_tokens(args[0], values) + (spec_dynamic_tokens(args.skip(1), values)
            + spec_arg_tokens(a, values)) =~= spec_dynamic_tokens(args, values) + spec_arg_tokens(
            a,
            values,
        ));
    }
}

proof fn lemma_first_missing_push(
    args: Seq<ArgDefView>,
    a: ArgDefView,
    values: Seq<(Seq<char>, Seq<char>)>,
)
    ensures
        spec_first_missing(args.push(a), values) == if spec_first_missing(args, values) is Some {
            spec_first_missing(args, values)
        } else if assoc_get(values, a.name) is None && a.required {
            Some(a.name)
        } else {
            None::<Seq<char>>
        },
    decreases args.len(),
{
    if args.len() == 0 {
        assert(args.push(a)[0] == a);
        assert(args.push(a).skip(1) =~= Seq::<ArgDefView>::empty());
        assert(spec_first_missing(args, values) == None::<Seq<char>>);
        assert(spec_first_missing(args.push(a).skip(1), values) == None::<Seq<char>>);
    } else {
        assert(args.push(a)[0] == args[0]);
        assert(args.push(a).skip(1) =~= args.skip(1).push(a));
        lemma_first_missing_push(args.skip(1), a, values);
        if !(assoc_get(values, args[0].name) is None && args[0].required) {
            assert(spec_first_missing(args.push(a), values) == spec_first_missing(
                args.skip(1).push(a),
                values,
            ));
            assert(spec_first_missing(args, values) == spec_first_missing(args.skip(1), values));
        }
    }
}

/// Once a prefix of the declarations already holds a missing required
/// argument, the whole walk reports that same argument.
proof fn lemma_first_missing_extend(
    args: Seq<ArgDefView>,
    values: Seq<(Seq<char>, Seq<char>)>,
    j: int,
)
    requires
        0 <= j <= args.len(),
        spec_first_missing(args.take(j), values) is Some,
    ensures
        spec_first_missing(args, values) == spec_first_missing(args.take(j), values),
    decreases j,
{
    assert(args.take(j).len() > 0);
    assert(j > 0);
    assert(args.take(j)[0] == args[0]);
    if assoc_get(values, args[0].name) is None && args[0].required {
    } else {
        assert(args.take(j).skip(1) =~= args.skip(1).take(j - 1));
        assert(spec_first_missing(args.take(j), values) == spec_first_missing(
            args.skip(1).take(j - 1),
            values,
        ));
        lemma_first_missing_extend(args.skip(1), values, j - 1);
    }
}

/// Resolve a configuration's full command-token list. Fails, naming the
/// argument, exactly when a required dynamic argument has no supplied
/// value; the walk is driven by the declaration order, never by the value
/// map's own order.
pub fn build_command_tokens(config: &McpConfig) -> (r: Result<Vec<String>, MissingArgError>)
    ensures
        r matches Ok(tokens) ==> spec_build_command_tokens(config@) == Ok::<_, Seq<char>>(
            tokens.deep_view(),
        ),
        r matches Err(e) ==> spec_build_command_tokens(config@) == Err::<Seq<Seq<char>>, _>(
            e.name@,
        ),
{
    let mut tokens: Vec<String> = Vec::new();
    tokens.push(config.command.clone());
    let nbase = config.base_args.len();
    let mut i: usize = 0;
    while i < nbase
        invariant
            i <= nbase,
            nbase == config.base_args@.len(),
            tokens@.len() == 1 + i,
            tokens@[0]@ == config@.command,
            forall|j: int| 1 <= j < 1 + i ==> (#[trigger] tokens@[j])@ == config@.base_args[j - 1],
        decreases nbase - i,
    {
        tokens.push(config.base_args[i].clone());
        i += 1;
    }
    let nargs = config.dynamic_args.len();
    let mut k: usize = 0;
    proof {
        assert(config@.dynamic_args.take(0) =~= Seq::<ArgDefView>::empty());
        assert(spec_dynamic_tokens(config@.dynamic_args.take(0), config@.arg_values) == Seq::<
            Seq<char>,
        >::empty());
        assert(forall|j: int|
            0 <= j < tokens@.len() ==> #[trigger] tokens.deep_view()[j] == tokens@[j]@);
        assert(tokens.deep_view() =~= seq![config@.command] + config@.base_args
            + spec_dynamic_tokens(config@.dynamic_args.take(0), config@.arg_values));
    }
    while k < nargs
        invariant
            k <= nargs,
            nargs == config.dynamic_args@.len(),
            spec_first_missing(config@.dynamic_args.take(k as int), config@.arg_values)
                is None,
            tokens.deep_view() == seq![config@.command] + config@.base_args + spec_dynamic_tokens(
                config@.dynamic_args.take(k as int),
                config@.arg_values,
            ),
        decreases nargs - k,
    {
        let arg = &config.dynamic_args[k];
        let ghost argv: ArgDefView = config@.dynamic_args[k as int];
        let ghost tdv: Seq<Seq<char>> = tokens.deep_view();
        proof {
            assert(config@.dynamic_args.take(k + 1) =~= config@.dynamic_args.take(
                k as int,
            ).push(argv));
            lemma_first_missing_push(
                config@.dynamic_args.take(k as int),
                argv,
                config@.arg_values,
            );
            lemma_dynamic_tokens_push(
                config@.dynamic_args.take(k as int),
                argv,
                config@.arg_values,
            );
        }
        let looked = config.arg_values.get(arg.name.as_str());
        match looked {
            Some(value) => {
                if !value.as_str().is_empty() {
                    if arg.flag.as_str().is_empty() {
                        tokens.push(value);
                        proof {
                            assert(spec_arg_tokens(argv, config@.arg_values) == seq![
                                assoc_get(config@.arg_values, argv.name).unwrap(),
                            ]);
                        }
                    } else {
                        tokens.push(arg.flag.clone());
                        if !matches!(arg.value_type, ArgType::Boolean) {
                            tokens.push(value);
                        }
                    }
                }
            },
            None => {
                if arg.required {
                    proof {
                        lemma_first_missing_extend(
                            config@.dynamic_args,
                            config@.arg_values,
                            k + 1,
                        );
                    }
                    return Err(MissingArgError { name: arg.name.clone() });
                }
            },
        }
        proof {
            assert(forall|j: int|
                0 <= j < tokens@.len() ==> #[trigger] tokens.deep_view()[j] == tokens@[j]@);
            assert(tokens.deep_view() =~= tdv + spec_arg_tokens(argv, config@.arg_values));
            assert(tokens.deep_view() =~= seq![config@.command] + config@.base_args
                + spec_dynamic_tokens(config@.dynamic_args.take(k + 1), config@.arg_values));
        }
        k += 1;
    }
    proof {
        assert(config@.dynamic_args.take(nargs as int) =~= config@.dynamic_args);
    }
    Ok(tokens)
}

/// A Boolean flag argument contributes its flag token alone, even when a
/// non-empty value string is present for it; a non-Boolean flag argument
/// with a non-empty value contributes the flag token and then the value
/// token.
pub proof fn lemma_boolean_flag_tokens(arg: ArgDefView, values: Seq<(Seq<char>, Seq<char>)>)
    requires
        assoc_get(values, arg.name) is Some,
        assoc_get(values, arg.name).unwrap().len() > 0,
        arg.flag.len() > 0,
    ensures
        arg.value_type is Boolean ==> spec_arg_tokens(arg, values) == seq![arg.flag],
        !(arg.value_type is Boolean) ==> spec_arg_tokens(arg, values) == seq![
            arg.flag,
            assoc_get(values, arg.name).unwrap(),
        ],
{
}

/// The dynamic tokens split around any one declared argument: what comes
/// before it, its own contribution, what comes after.
pub proof fn lemma_dynamic_tokens_split(
    args: Seq<ArgDefView>,
    values: Seq<(Seq<char>, Seq<char>)>,
    i: int,
)
    requires
        0 <= i < args.len(),
    ensures
        spec_dynamic_tokens(args, values) == spec_dynamic_tokens(args.take(i), values)
            + spec_arg_tokens(args[i], values) + spec_dynamic_tokens(args.skip(i + 1), values),
    decreases i,
{
    if i == 0 {
        assert(args.take(0) =~= Seq::<ArgDefView>::empty());
        assert(args.skip(1) =~= args.skip(i + 1));
        assert(spec_dynamic_tokens(args.take(0), values) + spec_arg_tokens(args[0], values)
            + spec_dynamic_tokens(args.skip(1), values) =~= spec_arg_tokens(args[0], values)
            + spec_dynamic_tokens(args.skip(1), values));
    } else {
        assert(forall|j: int| 0 <= j < args.skip(1).len() ==> args.skip(1)[j] == args[j + 1]);
        lemma_dynamic_tokens_split(args.skip(1), values, i - 1);
        assert(args.skip(1).take(i - 1) =~= args.take(i).skip(1));
        assert(args.skip(1).skip(i) =~= args.skip(i + 1));
        assert(args.skip(1)[i - 1] == args[i]);
        assert(spec_arg_tokens(args[0], values) + (spec_dynamic_tokens(args.take(i).skip(1), values)
            + spec_arg_tokens(args[i], values) + spec_dynamic_tokens(args.skip(i + 1), values))
            =~= (spec_arg_tokens(args[0], values) + spec_dynamic_tokens(
            args.take(i).skip(1),
            values,
        )) + spec_arg_tokens(args[i], values) + spec_dynamic_tokens(args.skip(i + 1), values));
        assert(spec_dynamic_tokens(args.take(i), values) =~= spec_arg_tokens(args.take(i)[0], values)
            + spec_dynamic_tokens(args.take(i).skip(1), values));
        assert(args.take(i)[0] == args[0]);
    }
}

/// A configuration that is missing any required dynamic argument resolves
/// to a failure: no token list comes back.
pub proof fn lemma_missing_required_fails(c: McpConfigView, i: int)
    requires
        0 <= i < c.dynamic_args.len(),
        c.dynamic_args[i].required,
        !assoc_contains(c.arg_values, c.dynamic_args[i].name),
    ensures
        spec_build_command_tokens(c) is Err,
{
    lemma_first_missing_finds(c.dynamic_args, c.arg_values, i);
}

proof fn lemma_first_missing_finds(
    args: Seq<ArgDefView>,
    values: Seq<(Seq<char>, Seq<char>)>,
    i: int,
)
    requires
        0 <= i < args.len(),
        args[i].required,
        assoc_get(values, args[i].name) is None,
    ensures
        spec_first_missing(args, values) is Some,
    decreases i,
{
    if !(assoc_get(values, args[0].name) is None && args[0].required) {
        assert(i > 0);
        assert(args.skip(1)[i - 1] == args[i]);
        lemma_first_missing_finds(args.skip(1), values, i - 1);
    }
}

} // verus!
