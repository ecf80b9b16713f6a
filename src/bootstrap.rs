//! The `system` attribute: which arguments it accepts, and the name of the
//! configuration type it declares for a system function.
use vstd::prelude::*;

use convert_case::{Case, Casing};

verus! {

/// One `name = value` argument of the attribute, the value as source text.
#[derive(Clone, Debug)]
pub struct SystemArg {
    pub name: String,
    pub value: String,
}

/// Why the attribute's arguments were refused.
#[derive(Clone, Copy, Debug, PartialEq, Eq, Structural)]
pub enum SystemArgError {
    /// The first argument is missing or is not `schedule`.
    ExpectedSchedule,
    /// A second argument is given and is not `conditions`.
    ExpectedConditions,
}

/// What the attribute declares for a system function.
#[derive(Clone, Debug)]
pub struct SystemConfig {
    /// The name of the configuration type.
    pub config_name: String,
    /// The schedule the system is added to.
    pub schedule: String,
    /// The run conditions, if given.
    pub conditions: Option<String>,
}

/// What convert_case makes of a name in Pascal case.
pub uninterp spec fn pascal_case_of(s: Seq<char>) -> Seq<char>;

/// Relies on convert_case's `Casing::to_case` with `Case::Pascal`: the
/// result depends on the name's characters alone.
#[verifier::external_body]
fn to_pascal_case(s: &str) -> (r: String)
    ensures
        r@ == pascal_case_of(s@),
{
    s.to_case(Case::Pascal)
}

/// The configuration type's name for a system whose name is already in
/// Pascal case: that name followed by `SystemConfig`.
pub fn config_name_from_pascal(pascal: &str) -> (r: String)
    ensures
        r@ == pascal@ + "SystemConfig"@,
{
    let mut r = String::from_str(pascal);
    r.append("SystemConfig");
    r
}

/// The configuration type's name for the system function `system`.
pub fn config_name(system: &str) -> (r: String)
    ensures
        r@ == pascal_case_of(system@) + "SystemConfig"@,
{
    let p = to_pascal_case(system);
    config_name_from_pascal(p.as_str())
}

/// Whether the attribute's arguments are accepted: a first argument named
/// `schedule`, and, when there are exactly two, a second named `conditions`.
pub open spec fn args_error(names: Seq<Seq<char>>) -> Option<SystemArgError> {
    if names.len() == 0 || names[0] != "schedule"@ {
        Some(SystemArgError::ExpectedSchedule)
    } else if names.len() == 2 && names[1] != "conditions"@ {
        Some(SystemArgError::ExpectedConditions)
    } else {
        None
    }
}

/// Checks the attribute's arguments and describes what it declares for the
/// system function `system`.
pub fn system_config(system: &str, args: &Vec<SystemArg>) -> (r: Result<SystemConfig, SystemArgError>)
    ensures
        match args_error(args@.map_values(|a: SystemArg| a.name@)) {
            Some(e) => r == Err::<SystemConfig, SystemArgError>(e),
            None => r is Ok && ({
                let c = r->Ok_0;
                &&& c.config_name@ == pascal_case_of(system@) + "SystemConfig"@
                &&& c.schedule@ == args@[0].value@
                &&& if args@.len() == 2 {
                    c.conditions is Some && c.conditions->0@ == args@[1].value@
                } else {
                    c.conditions is None
                }
            }),
        },
{
    let ghost names = args@.map_values(|a: SystemArg| a.name@);
    let schedule_name = String::from_str("schedule");
    let conditions_name = String::from_str("conditions");
    if args.len() == 0 {
        return Err(SystemArgError::ExpectedSchedule);
    }
    proof {
        assert(names[0] == args@[0].name@);
    }
    if args[0].name != schedule_name {
        return Err(SystemArgError::ExpectedSchedule);
    }
    let conditions = if args.len() == 2 {
        proof {
            assert(names[1] == args@[1].name@);
        }
        if args[1].name != conditions_name {
            return Err(SystemArgError::ExpectedConditions);
        }
        Some(args[1].value.clone())
    } else {
        None
    };
    Ok(SystemConfig { config_name: config_name(system), schedule: args[0].value.clone(), conditions })
}

} // verus!
