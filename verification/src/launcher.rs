//! Building the full launch invocation for a configuration: the resolved
//! port, the derived session name, the environment prefix, the activation
//! wrapper and the detached session-creation command handed to a shell.

use vstd::prelude::*;
use vstd::string::StringExecFns;
use crate::config::{McpConfig, McpConfigView, McpType};
use crate::resolver::{MissingArgError, build_command_tokens, spec_build_command_tokens};
use crate::strmap::{StrMap, assoc_contains, assoc_get, assoc_insert, assoc_sorted,
    lemma_assoc_insert_sorted};
use crate::text::{dec_str, lower_of, lowercase, parse_u16, replace_spaces, spec_parse_u16,
    spec_replace_spaces, u64_to_dec};

verus! {

/// Join parts with a separator between neighbours.
pub open spec fn spec_join(parts: Seq<Seq<char>>, sep: Seq<char>) -> Seq<char>
    decreases parts.len(),
{
    if parts.len() == 0 {
        Seq::empty()
    } else if parts.len() == 1 {
        parts[0]
    } else {
        parts[0] + sep + spec_join(parts.skip(1), sep)
    }
}

proof fn lemma_join_push(parts: Seq<Seq<char>>, x: Seq<char>, sep: Seq<char>)
    ensures
        spec_join(parts.push(x), sep) == if parts.len() == 0 {
            x
        } else {
            spec_join(parts, sep) + sep + x
        },
    decreases parts.len(),
{
    if parts.len() == 0 {
        assert(parts.push(x).len() == 1);
        assert(parts.push(x)[0] == x);
    } else if parts.len() == 1 {
        assert(parts.push(x)[0] == parts[0]);
        assert(parts.push(x).skip(1) =~= Seq::<Seq<char>>::empty().push(x));
        lemma_join_push(Seq::<Seq<char>>::empty(), x, sep);
        assert(spec_join(parts.push(x), sep) == parts[0] + sep + x);
    } else {
        assert(parts.push(x)[0] == parts[0]);
        assert(parts.push(x).skip(1) =~= parts.skip(1).push(x));
        lemma_join_push(parts.skip(1), x, sep);
        assert(spec_join(parts.push(x), sep) == parts[0] + sep + (spec_join(parts.skip(1), sep)
            + sep + x));
        assert(parts[0] + sep + (spec_join(parts.skip(1), sep) + sep + x) =~= (parts[0] + sep
            + spec_join(parts.skip(1), sep)) + sep + x);
    }
}

/// Join strings with a separator between neighbours.
pub fn join_strings(parts: &Vec<String>, sep: &str) -> (r: String)
    ensures
        r@ == spec_join(parts.deep_view(), sep@),
{
    proof {
        assert(forall|j: int|
            0 <= j < parts@.len() ==> #[trigger] parts.deep_view()[j] == parts@[j]@);
    }
    let mut out = String::new();
    let n = parts.len();
    if n == 0 {
        return out;
    }
    out.append(parts[0].as_str());
    proof {
        assert(parts.deep_view().take(1) =~= seq![parts.deep_view()[0]]);
        assert(out@ =~= spec_join(parts.deep_view().take(1), sep@));
    }
    let mut i: usize = 1;
    while i < n
        invariant
            1 <= i <= n,
            n == parts@.len(),
            forall|j: int| 0 <= j < parts@.len() ==> #[trigger] parts.deep_view()[j] == parts@[j]@,
            out@ == spec_join(parts.deep_view().take(i as int), sep@),
        decreases n - i,
    {
        out.append(sep);
        out.append(parts[i].as_str());
        proof {
            lemma_join_push(parts.deep_view().take(i as int), parts.deep_view()[i as int], sep@);
            assert(parts.deep_view().take(i + 1) =~= parts.deep_view().take(i as int).push(
                parts.deep_view()[i as int],
            ));
        }
        i += 1;
    }
    proof {
        assert(parts.deep_view().take(n as int) =~= parts.deep_view());
    }
    out
}

/// The port a launch runs on: meaningful only for the server types that use
/// one, read from the supplied `port` value, and 8080 when that is absent
/// or unparseable.
pub open spec fn spec_resolved_port(c: McpConfigView) -> u16 {
    if c.mcp_type is Http || c.mcp_type is Sse {
        match assoc_get(c.arg_values, "port"@) {
            Some(v) => match spec_parse_u16(v) {
                Some(p) => p,
                None => 8080,
            },
            None => 8080,
        }
    } else {
        0
    }
}

/// The port recorded on the instance: the parsed `port` value when the
/// server type uses one, and nothing otherwise.
pub open spec fn spec_actual_port(c: McpConfigView) -> Option<u16> {
    if c.mcp_type is Http || c.mcp_type is Sse {
        match assoc_get(c.arg_values, "port"@) {
            Some(v) => spec_parse_u16(v),
            None => None,
        }
    } else {
        None
    }
}

/// Resolve the port a launch of this configuration runs on.
pub fn resolve_port(config: &McpConfig) -> (r: u16)
    ensures
        r == spec_resolved_port(config@),
{
    if matches!(config.mcp_type, McpType::Http | McpType::Sse) {
        match config.arg_values.get("port") {
            Some(v) => match parse_u16(v.as_str()) {
                Some(p) => p,
                None => 8080,
            },
            None => 8080,
        }
    } else {
        0
    }
}

/// The port to record on the instance.
pub fn actual_port(config: &McpConfig) -> (r: Option<u16>)
    ensures
        r == spec_actual_port(config@),
{
    if matches!(config.mcp_type, McpType::Http | McpType::Sse) {
        match config.arg_values.get("port") {
            Some(v) => parse_u16(v.as_str()),
            None => None,
        }
    } else {
        None
    }
}

/// The session name a launch uses: `mcp-` before the configuration's name
/// with spaces turned to underscores and lowercased, and `-` with the port
/// after it when the port is positive. A pure function of the name and the
/// resolved port.
pub open spec fn spec_session_name(name: Seq<char>, port: u16) -> Seq<char> {
    let slug = lower_of(spec_replace_spaces(name));
    if port > 0 {
        "mcp-"@ + slug + "-"@ + dec_str(port as nat)
    } else {
        "mcp-"@ + slug
    }
}

/// Identical name and resolved port always give the identical session name:
/// the derivation reads nothing else.
pub proof fn lemma_session_name_pure(
    name_a: Seq<char>,
    port_a: u16,
    name_b: Seq<char>,
    port_b: u16,
)
    requires
        name_a == name_b,
        port_a == port_b,
    ensures
        spec_session_name(name_a, port_a) == spec_session_name(name_b, port_b),
{
}

/// Derive the session name from a configuration name and a resolved port.
pub fn derive_session_name(name: &str, port: u16) -> (r: String)
    ensures
        r@ == spec_session_name(name@, port),
{
    let underscored = replace_spaces(name);
    let slug = lowercase(underscored.as_str());
    let mut out = "mcp-".to_owned();
    out.append(slug.as_str());
    if port > 0 {
        out.append("-");
        let digits = u64_to_dec(port as u64);
        out.append(digits.as_str());
        proof {
            assert(out@ =~= spec_session_name(name@, port));
        }
    } else {
        proof {
            assert(out@ =~= spec_session_name(name@, port));
        }
    }
    out
}

/// The environment a launch runs under: the configuration's own variables,
/// with `PORT` set to the resolved port for the server types that use one,
/// unless the configuration already sets `PORT` itself.
pub open spec fn spec_launch_env(c: McpConfigView, port: u16) -> Seq<(Seq<char>, Seq<char>)> {
    if (c.mcp_type is Http || c.mcp_type is Sse) && port > 0 && !assoc_contains(
        c.env_vars,
        "PORT"@,
    ) {
        assoc_insert(c.env_vars, "PORT"@, dec_str(port as nat))
    } else {
        c.env_vars
    }
}

/// Build the launch environment for a configuration and resolved port.
pub fn build_launch_env(config: &McpConfig, port: u16) -> (r: StrMap)
    requires
        assoc_sorted(config@.env_vars),
    ensures
        r@ == spec_launch_env(config@, port),
        r.wf(),
{
    let mut env = config.env_vars.duplicate();
    if matches!(config.mcp_type, McpType::Http | McpType::Sse) && port > 0 && !env.contains_key(
        "PORT",
    ) {
        proof {
            lemma_assoc_insert_sorted(config@.env_vars, "PORT"@, dec_str(port as nat));
        }
        env.insert("PORT".to_owned(), u64_to_dec(port as u64));
    }
    env
}

/// Each assignment of a map as `key=value`, in the map's ascending key
/// order, joined with a separator.
pub open spec fn spec_env_joined(pairs: Seq<(Seq<char>, Seq<char>)>, sep: Seq<char>) -> Seq<char> {
    spec_join(Seq::new(pairs.len(), |i: int| pairs[i].0 + "="@ + pairs[i].1), sep)
}

/// The environment prefix text: the assignments separated by single spaces.
pub open spec fn spec_env_string(pairs: Seq<(Seq<char>, Seq<char>)>) -> Seq<char> {
    spec_env_joined(pairs, " "@)
}

/// Render a map's assignments as `key=value`, joined with a separator.
pub fn env_joined(env: &StrMap, sep: &str) -> (r: String)
    ensures
        r@ == spec_env_joined(env@, sep@),
{
    let n = env.len();
    let mut parts: Vec<String> = Vec::new();
    let mut i: usize = 0;
    while i < n
        invariant
            i <= n,
            n == env@.len(),
            parts@.len() == i,
            forall|j: int|
                0 <= j < i ==> (#[trigger] parts@[j])@ == env@[j].0 + "="@ + env@[j].1,
        decreases n - i,
    {
        let mut one = env.key_at(i).clone();
        one.append("=");
        one.append(env.val_at(i).as_str());
        parts.push(one);
        i += 1;
    }
    let r = join_strings(&parts, sep);
    proof {
        assert(parts.deep_view() =~= Seq::new(env@.len(), |j: int| env@[j].0 + "="@ + env@[j].1));
    }
    r
}

/// Render the environment prefix text of a map.
pub fn env_string(env: &StrMap) -> (r: String)
    ensures
        r@ == spec_env_string(env@),
{
    env_joined(env, " ")
}

/// The command with its activation wrapper: `source <script> && ` before it
/// when the configuration names an activation script.
pub open spec fn spec_with_activation(script: Option<Seq<char>>, base: Seq<char>) -> Seq<char> {
    match script {
        Some(s) => "source "@ + s + " && "@ + base,
        None => base,
    }
}

/// The full command line: the environment prefix, when there is one, then
/// the activation-wrapped command.
pub open spec fn spec_full_command(envs: Seq<char>, wrapped: Seq<char>) -> Seq<char> {
    if envs.len() == 0 {
        wrapped
    } else {
        envs + " "@ + wrapped
    }
}

/// The detached session-creation invocation handed to a shell: scoped to
/// the working directory when one is set.
pub open spec fn spec_session_command(
    session: Seq<char>,
    cwd: Option<Seq<char>>,
    full: Seq<char>,
) -> Seq<char> {
    match cwd {
        Some(dir) => "tmux new-session -d -s "@ + session + " -c '"@ + dir + "' '"@ + full
            + "'"@,
        None => "tmux new-session -d -s "@ + session + " '"@ + full + "'"@,
    }
}

/// Everything the launch of one configuration needs: pure data, ready to be
/// spawned.
pub struct LaunchPlan {
    /// The derived session name.
    pub session_name: String,
    /// The complete `tmux new-session` invocation for `sh -c`.
    pub shell_command: String,
    /// The port recorded on the instance, for server types that use one.
    pub actual_port: Option<u16>,
}

/// Mathematical image of a [`LaunchPlan`].
#[verifier::ext_equal]
pub ghost struct LaunchPlanView {
    pub session_name: Seq<char>,
    pub shell_command: Seq<char>,
    pub actual_port: Option<u16>,
}

impl View for LaunchPlan {
    type V = LaunchPlanView;

    open spec fn view(&self) -> LaunchPlanView {
        LaunchPlanView {
            session_name: self.session_name@,
            shell_command: self.shell_command@,
            actual_port: self.actual_port,
        }
    }
}

/// The plan a well-supplied configuration launches with.
pub open spec fn spec_launch_plan(c: McpConfigView) -> LaunchPlanView
    recommends
        spec_build_command_tokens(c) is Ok,
{
    let port = spec_resolved_port(c);
    let session = spec_session_name(c.name, port);
    let tokens = spec_build_command_tokens(c)->Ok_0;
    let base = spec_join(tokens, " "@);
    let wrapped = spec_with_activation(c.activation_script, base);
    let full = spec_full_command(spec_env_string(spec_launch_env(c, port)), wrapped);
    LaunchPlanView {
        session_name: session,
        shell_command: spec_session_command(session, c.working_dir, full),
        actual_port: spec_actual_port(c),
    }
}

/// Build the launch plan of a configuration. Fails, naming the argument and
/// leaving nothing prepared, exactly when a required dynamic argument has
/// no supplied value.
pub fn prepare_launch(config: &McpConfig) -> (r: Result<LaunchPlan, MissingArgError>)
    requires
        assoc_sorted(config@.env_vars),
    ensures
        r matches Ok(plan) ==> spec_build_command_tokens(config@) is Ok && plan@
            == spec_launch_plan(config@),
        r matches Err(e) ==> spec_build_command_tokens(config@) == Err::<Seq<Seq<char>>, _>(
            e.name@,
        ),
{
    let tokens = match build_command_tokens(config) {
        Ok(tokens) => tokens,
        Err(e) => {
            return Err(e);
        },
    };
    let port = resolve_port(config);
    let session_name = derive_session_name(config.name.as_str(), port);
    let base_command = join_strings(&tokens, " ");
    let wrapped = match &config.activation_script {
        Some(script) => {
            let mut w = "source ".to_owned();
            w.append(script.as_str());
            w.append(" && ");
            w.append(base_command.as_str());
            w
        },
        None => base_command,
    };
    let env = build_launch_env(config, port);
    let envs = env_string(&env);
    let full = if envs.as_str().is_empty() {
        wrapped
    } else {
        let mut f = envs;
        f.append(" ");
        f.append(wrapped.as_str());
        f
    };
    let mut shell_command = "tmux new-session -d -s ".to_owned();
    shell_command.append(session_name.as_str());
    match &config.working_dir {
        Some(dir) => {
            shell_command.append(" -c '");
            shell_command.append(dir.as_str());
            shell_command.append("' '");
            shell_command.append(full.as_str());
            shell_command.append("'");
        },
        None => {
            shell_command.append(" '");
            shell_command.append(full.as_str());
            shell_command.append("'");
        },
    }
    let plan = LaunchPlan { session_name, shell_command, actual_port: actual_port(config) };
    proof {
        assert(plan@.shell_command =~= spec_launch_plan(config@).shell_command);
        assert(plan@ =~= spec_launch_plan(config@));
    }
    Ok(plan)
}

} // verus!
