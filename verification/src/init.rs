//! `POST /init` and `GET /envs`: setting the process-wide defaults and reading them back.

use crate::defaults::{given, Defaults, DefaultsView, EnvVars};
use crate::text::optional;
use vstd::prelude::*;

verus! {

/// What `/init` brings. Other members of the request, such as volume mounts or an access token, are
/// accepted and ignored.
#[derive(Clone, Debug)]
pub struct InitRequest {
    pub env_vars: EnvVars,
    pub default_user: Option<String>,
    pub default_workdir: Option<String>,
}

/// A default after a request: what the request gives, or else what was there.
pub open spec fn replaced(before: Option<Seq<char>>, request: Option<Seq<char>>) -> Option<Seq<char>> {
    match given(request) {
        Some(value) => Some(value),
        None => before,
    }
}

/// The defaults after a request to `/init`.
pub open spec fn initialized(
    before: DefaultsView,
    env_vars: Map<Seq<char>, Seq<char>>,
    user: Option<Seq<char>>,
    workdir: Option<Seq<char>>,
) -> DefaultsView {
    DefaultsView {
        env_vars: before.env_vars.union_prefer_right(env_vars),
        user: replaced(before.user, user),
        workdir: replaced(before.workdir, workdir),
    }
}

/// The status of the reply to a request to `/init`: there is no content.
pub open spec fn init_status() -> u16 {
    204
}

/// Merges a request into the defaults and gives the status of the reply, which has no content.
pub fn init(defaults: &mut Defaults, request: InitRequest) -> (status: u16)
    ensures
        status == 204,
        status == init_status(),
        final(defaults)@ == initialized(
            old(defaults)@,
            request.env_vars@,
            optional(request.default_user),
            optional(request.default_workdir),
        ),
{
    defaults.env_vars.extend(&request.env_vars);
    if let Some(user) = request.default_user {
        if !user.as_str().is_empty() {
            defaults.user = Some(user);
        }
    }
    if let Some(workdir) = request.default_workdir {
        if !workdir.as_str().is_empty() {
            defaults.workdir = Some(workdir);
        }
    }
    204
}

/// The environment variables that `/init` established.
pub open spec fn told_variables(defaults: DefaultsView) -> Map<Seq<char>, Seq<char>> {
    defaults.env_vars
}

/// Tells the environment variables that `/init` established.
pub fn envs(defaults: &Defaults) -> (env_vars: EnvVars)
    ensures
        env_vars@ == defaults.env_vars@,
        env_vars@ == told_variables(defaults@),
{
    defaults.env_vars.clone()
}

/// A second request overrides a first one where both set something, and keeps the rest of it.
pub proof fn law_later_init_wins(
    before: DefaultsView,
    first: (Map<Seq<char>, Seq<char>>, Option<Seq<char>>, Option<Seq<char>>),
    second: (Map<Seq<char>, Seq<char>>, Option<Seq<char>>, Option<Seq<char>>),
    name: Seq<char>,
)
    ensures
        ({
            let middle = initialized(before, first.0, first.1, first.2);
            let after = initialized(middle, second.0, second.1, second.2);
            &&& second.0.contains_key(name) ==> after.env_vars.contains_key(name) && after.env_vars[name]
                == second.0[name]
            &&& first.0.contains_key(name) && !second.0.contains_key(name) ==> after.env_vars.contains_key(name)
                && after.env_vars[name] == first.0[name]
            &&& given(second.1) is Some ==> after.user == given(second.1)
            &&& given(second.1) is None ==> after.user == middle.user
            &&& given(second.2) is Some ==> after.workdir == given(second.2)
            &&& given(second.2) is None ==> after.workdir == middle.workdir
        }),
{
}

/// A request that sets nothing changes nothing: no variables, and a user and a working directory
/// that are missing or empty.
pub proof fn law_empty_init_changes_nothing(
    before: DefaultsView,
    user: Option<Seq<char>>,
    workdir: Option<Seq<char>>,
)
    requires
        given(user) is None,
        given(workdir) is None,
    ensures
        initialized(before, Map::empty(), user, workdir) == before,
{
    assert(before.env_vars.union_prefer_right(Map::empty()) =~= before.env_vars);
}

} // verus!
