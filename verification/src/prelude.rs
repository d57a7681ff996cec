//! The names under which the host's functions are known to programs.

use vstd::prelude::*;
use vstd::string::StringExecFns;
use crate::env::{def_spec, Env};
use crate::l_value::{copy_value, values_view, EnvV, LValue, ValueV};

verus! {

/// The environment with `name` bound, in its current scope, to the host's
/// function of that name.
pub open spec fn with_native(env: EnvV, name: Seq<char>) -> EnvV {
    def_spec(env, name, ValueV::Native(name))
}

/// The environment with the four functions of the prelude.
pub open spec fn prelude_spec(env: EnvV) -> EnvV {
    with_native(with_native(with_native(with_native(env, "print"@), "puts"@), "sleep"@), "time"@)
}

/// What `print` and `puts` return: their first argument, or false where
/// they have none.
pub open spec fn first_or_false_spec(args: Seq<ValueV>) -> ValueV {
    if args.len() == 0 {
        ValueV::Bool(false)
    } else {
        args[0]
    }
}

/// Binds `name` to the host's function of that name.
pub fn define_native(env: &mut Env, name: &str)
    requires
        old(env).wf(),
    ensures
        final(env).wf(),
        final(env)@ == with_native(old(env)@, name@),
{
    env.def(String::from_str(name), &LValue::Native(String::from_str(name)));
}

/// Binds `print`, `puts`, `sleep` and `time` in the current scope, each to
/// the host's function of its name.
pub fn define_prelude(env: &mut Env)
    requires
        old(env).wf(),
    ensures
        final(env).wf(),
        final(env)@ == prelude_spec(old(env)@),
{
    define_native(env, "print");
    define_native(env, "puts");
    define_native(env, "sleep");
    define_native(env, "time");
}

/// The first of `args`, or false where there is none.
pub fn first_or_false(args: &Vec<LValue>) -> (r: LValue)
    ensures
        r@ == first_or_false_spec(values_view(args@)),
{
    if args.len() == 0 {
        LValue::Bool(false)
    } else {
        copy_value(&args[0])
    }
}

} // verus!
