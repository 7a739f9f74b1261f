//! Permission checks for tool calls that a model asks for.
//!
//! Three permission modes are known: `read-only` allows only the reading
//! tools and read-only shell commands, `workspace-write` allows everything but asks for
//! confirmation of destructive shell commands, `danger-full-access` allows all.
use vstd::prelude::*;
use crate::json::{json_string_member, string_member};
use crate::text::{contains, join3, owned, spec_contains, spec_starts_with, starts_with, str_eq};

verus! {

/// Result of permission validation for a tool call.
#[derive(Debug, Clone, PartialEq, Eq)]
pub enum PermissionCheckResult {
    /// Tool call is allowed.
    Allowed,
    /// Tool call is blocked with explanation.
    Blocked { reason: String },
    /// Tool call requires confirmation.
    RequiresConfirmation { message: String },
}

/// What a permission check decides, with its texts as character sequences.
pub enum PermissionDecision {
    Allowed,
    Blocked(Seq<char>),
    RequiresConfirmation(Seq<char>),
}

impl View for PermissionCheckResult {
    type V = PermissionDecision;

    open spec fn view(&self) -> PermissionDecision {
        match self {
            PermissionCheckResult::Allowed => PermissionDecision::Allowed,
            PermissionCheckResult::Blocked { reason } => PermissionDecision::Blocked(reason@),
            PermissionCheckResult::RequiresConfirmation { message } => {
                PermissionDecision::RequiresConfirmation(message@)
            },
        }
    }
}

/// The command prefixes that mark a shell command as read-only.
pub open spec fn read_only_prefixes() -> Seq<Seq<char>> {
    seq![
        "cat "@, "ls "@, "grep "@, "find "@, "head "@, "tail "@, "wc "@, "file "@, "stat "@,
        "echo "@, "pwd "@, "which "@, "whoami "@, "date "@, "uname "@,
    ]
}

/// The fragments that mark a shell command as destructive.
pub open spec fn destructive_fragments() -> Seq<Seq<char>> {
    seq!["rm "@, "rmdir "@, "shred "@, "dd "@, "mkfs "@, "truncate "@, "sudo rm"@]
}

/// The fragments by which a shell command chains, pipes or redirects to
/// another command or file.
pub open spec fn chaining_fragments() -> Seq<Seq<char>> {
    seq![";"@, "&"@, "|"@, "`"@, ">"@, "<"@, "\n"@, "$("@]
}

/// Whether a command holds a chaining fragment.
pub open spec fn spec_chains(cmd: Seq<char>) -> bool {
    exists|i: int| 0 <= i < chaining_fragments().len() && spec_contains(cmd, #[trigger] chaining_fragments()[i])
}

/// Whether a command begins with one of the read-only prefixes.
pub open spec fn spec_has_read_only_prefix(cmd: Seq<char>) -> bool {
    exists|i: int| 0 <= i < read_only_prefixes().len() && spec_starts_with(cmd, #[trigger] read_only_prefixes()[i])
}

/// A shell command is read-only when it begins with one of the read-only
/// prefixes, is not destructive, and runs no further command.
pub open spec fn spec_is_read_only(cmd: Seq<char>) -> bool {
    spec_has_read_only_prefix(cmd) && !spec_is_destructive(cmd) && !spec_chains(cmd)
}

/// A shell command is destructive when a destructive fragment occurs anywhere in it.
pub open spec fn spec_is_destructive(cmd: Seq<char>) -> bool {
    exists|i: int| 0 <= i < destructive_fragments().len() && spec_contains(cmd, #[trigger] destructive_fragments()[i])
}

/// The reading tools, the only tools besides read-only shell commands that
/// read-only mode allows.
pub open spec fn is_read_tool(tool: Seq<char>) -> bool {
    tool == "read_file"@ || tool == "glob_search"@ || tool == "grep_search"@ || tool == "list_mcp_resources"@
        || tool == "read_mcp_resource"@
}

/// Tools that change files, refused in read-only mode.
pub open spec fn is_write_tool(tool: Seq<char>) -> bool {
    tool == "write_file"@ || tool == "edit_file"@ || tool == "bash_write"@
}

/// The decision for a call of `tool` whose `command` argument (a JSON string
/// member, when there is one) is `command`, in permission mode `mode`.
pub open spec fn permission_decision(
    tool: Seq<char>,
    command: Option<Seq<char>>,
    mode: Seq<char>,
) -> PermissionDecision {
    if mode == "read-only"@ {
        if tool == "bash"@ {
            match command {
                Some(cmd) => if spec_is_read_only(cmd) {
                    PermissionDecision::Allowed
                } else {
                    PermissionDecision::Blocked(
                        "Bash command '"@ + cmd + "' not allowed in read-only mode"@,
                    )
                },
                None => PermissionDecision::Blocked("Bash command missing 'command' argument"@),
            }
        } else if is_read_tool(tool) {
            PermissionDecision::Allowed
        } else {
            PermissionDecision::Blocked("Tool '"@ + tool + "' not allowed in read-only mode"@)
        }
    } else if mode == "workspace-write"@ {
        if tool == "bash"@ {
            match command {
                Some(cmd) => if spec_is_destructive(cmd) {
                    PermissionDecision::RequiresConfirmation(
                        "Destructive bash command: "@ + cmd + " (requires confirmation)"@,
                    )
                } else {
                    PermissionDecision::Allowed
                },
                None => PermissionDecision::Allowed,
            }
        } else {
            PermissionDecision::Allowed
        }
    } else if mode == "danger-full-access"@ {
        PermissionDecision::Allowed
    } else {
        PermissionDecision::Blocked("Unknown permission mode: "@ + mode)
    }
}

/// Check if a bash command is read-only (safe).
pub fn is_read_only_bash_command(cmd: &str) -> (r: bool)
    ensures
        r == spec_is_read_only(cmd@),
{
    let read_only_patterns: [&str; 15] = [
        "cat ", "ls ", "grep ", "find ", "head ", "tail ", "wc ", "file ", "stat ", "echo ",
        "pwd ", "which ", "whoami ", "date ", "uname ",
    ];
    assert forall|k: int| 0 <= k < 15 implies #[trigger] read_only_patterns@[k]@
        == read_only_prefixes()[k] by {}
    let mut i: usize = 0;
    while i < 15
        invariant
            i <= 15,
            forall|k: int| 0 <= k < 15 ==> #[trigger] read_only_patterns@[k]@ == read_only_prefixes()[k],
            forall|k: int| 0 <= k < i ==> !spec_starts_with(cmd@, #[trigger] read_only_prefixes()[k]),
        decreases 15 - i,
    {
        if starts_with(cmd, read_only_patterns[i]) {
            assert(spec_starts_with(cmd@, read_only_prefixes()[i as int]));
            return !is_destructive_bash_command(cmd) && !chains(cmd);
        }
        i = i + 1;
    }
    false
}

/// Whether a shell command chains, pipes or redirects.
fn chains(cmd: &str) -> (r: bool)
    ensures
        r == spec_chains(cmd@),
{
    let fragments: [&str; 8] = [";", "&", "|", "`", ">", "<", "\n", "$("];
    assert forall|k: int| 0 <= k < 8 implies #[trigger] fragments@[k]@ == chaining_fragments()[k] by {}
    let mut i: usize = 0;
    while i < 8
        invariant
            i <= 8,
            forall|k: int| 0 <= k < 8 ==> #[trigger] fragments@[k]@ == chaining_fragments()[k],
            forall|k: int| 0 <= k < i ==> !spec_contains(cmd@, #[trigger] chaining_fragments()[k]),
        decreases 8 - i,
    {
        if contains(cmd, fragments[i]) {
            assert(spec_contains(cmd@, chaining_fragments()[i as int]));
            return true;
        }
        i = i + 1;
    }
    false
}

/// Check if a bash command is destructive.
pub fn is_destructive_bash_command(cmd: &str) -> (r: bool)
    ensures
        r == spec_is_destructive(cmd@),
{
    let destructive_patterns: [&str; 7] = [
        "rm ", "rmdir ", "shred ", "dd ", "mkfs ", "truncate ", "sudo rm",
    ];
    assert forall|k: int| 0 <= k < 7 implies #[trigger] destructive_patterns@[k]@
        == destructive_fragments()[k] by {}
    let mut i: usize = 0;
    while i < 7
        invariant
            i <= 7,
            forall|k: int| 0 <= k < 7 ==> #[trigger] destructive_patterns@[k]@ == destructive_fragments()[k],
            forall|k: int| 0 <= k < i ==> !spec_contains(cmd@, #[trigger] destructive_fragments()[k]),
        decreases 7 - i,
    {
        if contains(cmd, destructive_patterns[i]) {
            assert(spec_contains(cmd@, destructive_fragments()[i as int]));
            return true;
        }
        i = i + 1;
    }
    false
}

/// Validate a tool call against a permission mode.
///
/// `arguments` is the JSON text of the call's argument object; of it only
/// the string member `command` is read, and only for the `bash` tool.
pub fn validate_tool_call_permissions(
    tool_name: &str,
    arguments: &str,
    permission_mode: &str,
) -> (r: PermissionCheckResult)
    ensures
        r@ == permission_decision(tool_name@, json_string_member(arguments@, "command"@), permission_mode@),
{
    proof {
        reveal_strlit("read-only");
        reveal_strlit("workspace-write");
        reveal_strlit("danger-full-access");
        reveal_strlit("bash");
        reveal_strlit("read_file");
        reveal_strlit("glob_search");
        reveal_strlit("grep_search");
        reveal_strlit("list_mcp_resources");
        reveal_strlit("read_mcp_resource");
        reveal_strlit("command");
    }
    if str_eq(permission_mode, "read-only") {
        if str_eq(tool_name, "bash") {
            match string_member(arguments, "command") {
                Some(cmd) => {
                    if is_read_only_bash_command(cmd.as_str()) {
                        PermissionCheckResult::Allowed
                    } else {
                        PermissionCheckResult::Blocked {
                            reason: join3(
                                "Bash command '",
                                cmd.as_str(),
                                "' not allowed in read-only mode",
                            ),
                        }
                    }
                },
                None => PermissionCheckResult::Blocked {
                    reason: owned("Bash command missing 'command' argument"),
                },
            }
        } else if str_eq(tool_name, "read_file") || str_eq(tool_name, "glob_search") || str_eq(
            tool_name,
            "grep_search",
        ) || str_eq(tool_name, "list_mcp_resources") || str_eq(tool_name, "read_mcp_resource") {
            PermissionCheckResult::Allowed
        } else {
            PermissionCheckResult::Blocked {
                reason: join3("Tool '", tool_name, "' not allowed in read-only mode"),
            }
        }
    } else if str_eq(permission_mode, "workspace-write") {
        if str_eq(tool_name, "bash") {
            match string_member(arguments, "command") {
                Some(cmd) => {
                    if is_destructive_bash_command(cmd.as_str()) {
                        PermissionCheckResult::RequiresConfirmation {
                            message: join3(
                                "Destructive bash command: ",
                                cmd.as_str(),
                                " (requires confirmation)",
                            ),
                        }
                    } else {
                        PermissionCheckResult::Allowed
                    }
                },
                None => PermissionCheckResult::Allowed,
            }
        } else {
            PermissionCheckResult::Allowed
        }
    } else if str_eq(permission_mode, "danger-full-access") {
        PermissionCheckResult::Allowed
    } else {
        PermissionCheckResult::Blocked {
            reason: crate::text::join2("Unknown permission mode: ", permission_mode),
        }
    }
}

/// The modes are ordered by what they allow: every call that read-only mode
/// allows, workspace-write mode allows too; and danger-full-access mode
/// allows every call.
pub proof fn lemma_modes_widen(tool: Seq<char>, command: Option<Seq<char>>)
    ensures
        permission_decision(tool, command, "read-only"@) is Allowed ==> permission_decision(
            tool,
            command,
            "workspace-write"@,
        ) is Allowed,
        permission_decision(tool, command, "danger-full-access"@) is Allowed,
{
    reveal_strlit("read-only");
    reveal_strlit("workspace-write");
    reveal_strlit("danger-full-access");
    assert("danger-full-access"@.len() != "read-only"@.len());
    assert("danger-full-access"@.len() != "workspace-write"@.len());
    assert("workspace-write"@.len() != "read-only"@.len());
}

/// Read-only mode never allows a tool that writes files.
pub proof fn lemma_read_only_blocks_writes(tool: Seq<char>, command: Option<Seq<char>>)
    requires
        is_write_tool(tool),
    ensures
        permission_decision(tool, command, "read-only"@) is Blocked,
{
    reveal_strlit("read-only");
    reveal_strlit("bash");
    reveal_strlit("write_file");
    reveal_strlit("edit_file");
    reveal_strlit("bash_write");
    reveal_strlit("read_file");
    reveal_strlit("glob_search");
    reveal_strlit("grep_search");
    reveal_strlit("list_mcp_resources");
    reveal_strlit("read_mcp_resource");
    assert(tool.len() != "bash"@.len());
    assert(tool[0] == 'w' || tool[0] == 'e' || tool[0] == 'b');
    assert("read_file"@[0] == 'r' && "glob_search"@[0] == 'g' && "grep_search"@[0] == 'g');
    assert("list_mcp_resources"@[0] == 'l' && "read_mcp_resource"@[0] == 'r');
    assert(!is_read_tool(tool));
}

/// Read-only mode allows only reading: a call it allows is one of the
/// reading tools, or a shell command that is read-only, so neither
/// destructive nor chained to another command.
pub proof fn lemma_read_only_allows_only_reads(tool: Seq<char>, command: Option<Seq<char>>)
    ensures
        permission_decision(tool, command, "read-only"@) is Allowed ==> is_read_tool(tool) || (tool == "bash"@
            && command is Some && spec_is_read_only(command->0) && !spec_is_destructive(command->0)
            && !spec_chains(command->0)),
{
}

/// The shell commands that read-only mode allows are exactly those that begin
/// with `cat `, `ls `, `grep `, `find `, `head `, `tail `, `wc `, `file `,
/// `stat `, `echo `, `pwd `, `which `, `whoami `, `date ` or `uname `, hold
/// none of `rm `, `rmdir `, `shred `, `dd `, `mkfs `, `truncate `, `sudo rm`,
/// and hold none of `;`, `&`, `|`, a backtick, `>`, `<`, a line feed or `$(`.
pub proof fn lemma_read_only_shell_commands(cmd: Seq<char>)
    ensures
        permission_decision("bash"@, Some(cmd), "read-only"@) is Allowed <==> ({
            &&& spec_starts_with(cmd, "cat "@) || spec_starts_with(cmd, "ls "@) || spec_starts_with(cmd, "grep "@)
                || spec_starts_with(cmd, "find "@) || spec_starts_with(cmd, "head "@) || spec_starts_with(
                cmd,
                "tail "@,
            ) || spec_starts_with(cmd, "wc "@) || spec_starts_with(cmd, "file "@) || spec_starts_with(
                cmd,
                "stat "@,
            ) || spec_starts_with(cmd, "echo "@) || spec_starts_with(cmd, "pwd "@) || spec_starts_with(
                cmd,
                "which "@,
            ) || spec_starts_with(cmd, "whoami "@) || spec_starts_with(cmd, "date "@) || spec_starts_with(
                cmd,
                "uname "@,
            )
            &&& !(spec_contains(cmd, "rm "@) || spec_contains(cmd, "rmdir "@) || spec_contains(cmd, "shred "@)
                || spec_contains(cmd, "dd "@) || spec_contains(cmd, "mkfs "@) || spec_contains(cmd, "truncate "@)
                || spec_contains(cmd, "sudo rm"@))
            &&& !(spec_contains(cmd, ";"@) || spec_contains(cmd, "&"@) || spec_contains(cmd, "|"@) || spec_contains(
                cmd,
                "`"@,
            ) || spec_contains(cmd, ">"@) || spec_contains(cmd, "<"@) || spec_contains(cmd, "\n"@)
                || spec_contains(cmd, "$("@))
        }),
{
    reveal_strlit("read-only");
    reveal_strlit("bash");
    let p = read_only_prefixes();
    assert(p[0] == "cat "@ && p[1] == "ls "@ && p[2] == "grep "@ && p[3] == "find "@ && p[4] == "head "@);
    assert(p[5] == "tail "@ && p[6] == "wc "@ && p[7] == "file "@ && p[8] == "stat "@ && p[9] == "echo "@);
    assert(p[10] == "pwd "@ && p[11] == "which "@ && p[12] == "whoami "@ && p[13] == "date "@ && p[14]
        == "uname "@);
    assert(p.len() == 15);
    if spec_has_read_only_prefix(cmd) {
        let i = choose|i: int| 0 <= i < p.len() && spec_starts_with(cmd, #[trigger] p[i]);
        assert(0 <= i < 15);
        if i == 0 {} else if i == 1 {} else if i == 2 {} else if i == 3 {} else if i == 4 {}
        else if i == 5 {} else if i == 6 {} else if i == 7 {} else if i == 8 {} else if i == 9 {}
        else if i == 10 {} else if i == 11 {} else if i == 12 {} else if i == 13 {} else {}
    }
    if spec_starts_with(cmd, "cat "@) { assert(spec_starts_with(cmd, p[0])); }
    if spec_starts_with(cmd, "ls "@) { assert(spec_starts_with(cmd, p[1])); }
    if spec_starts_with(cmd, "grep "@) { assert(spec_starts_with(cmd, p[2])); }
    if spec_starts_with(cmd, "find "@) { assert(spec_starts_with(cmd, p[3])); }
    if spec_starts_with(cmd, "head "@) { assert(spec_starts_with(cmd, p[4])); }
    if spec_starts_with(cmd, "tail "@) { assert(spec_starts_with(cmd, p[5])); }
    if spec_starts_with(cmd, "wc "@) { assert(spec_starts_with(cmd, p[6])); }
    if spec_starts_with(cmd, "file "@) { assert(spec_starts_with(cmd, p[7])); }
    if spec_starts_with(cmd, "stat "@) { assert(spec_starts_with(cmd, p[8])); }
    if spec_starts_with(cmd, "echo "@) { assert(spec_starts_with(cmd, p[9])); }
    if spec_starts_with(cmd, "pwd "@) { assert(spec_starts_with(cmd, p[10])); }
    if spec_starts_with(cmd, "which "@) { assert(spec_starts_with(cmd, p[11])); }
    if spec_starts_with(cmd, "whoami "@) { assert(spec_starts_with(cmd, p[12])); }
    if spec_starts_with(cmd, "date "@) { assert(spec_starts_with(cmd, p[13])); }
    if spec_starts_with(cmd, "uname "@) { assert(spec_starts_with(cmd, p[14])); }
    let d = destructive_fragments();
    assert(d.len() == 7);
    assert(d[0] == "rm "@ && d[1] == "rmdir "@ && d[2] == "shred "@ && d[3] == "dd "@ && d[4] == "mkfs "@);
    assert(d[5] == "truncate "@ && d[6] == "sudo rm"@);
    if spec_is_destructive(cmd) {
        let i = choose|i: int| 0 <= i < d.len() && spec_contains(cmd, #[trigger] d[i]);
        if i == 0 {} else if i == 1 {} else if i == 2 {} else if i == 3 {} else if i == 4 {} else if i == 5 {}
        else {}
    }
    if spec_contains(cmd, "rm "@) { assert(spec_contains(cmd, d[0])); }
    if spec_contains(cmd, "rmdir "@) { assert(spec_contains(cmd, d[1])); }
    if spec_contains(cmd, "shred "@) { assert(spec_contains(cmd, d[2])); }
    if spec_contains(cmd, "dd "@) { assert(spec_contains(cmd, d[3])); }
    if spec_contains(cmd, "mkfs "@) { assert(spec_contains(cmd, d[4])); }
    if spec_contains(cmd, "truncate "@) { assert(spec_contains(cmd, d[5])); }
    if spec_contains(cmd, "sudo rm"@) { assert(spec_contains(cmd, d[6])); }
    let c = chaining_fragments();
    assert(c.len() == 8);
    assert(c[0] == ";"@ && c[1] == "&"@ && c[2] == "|"@ && c[3] == "`"@ && c[4] == ">"@);
    assert(c[5] == "<"@ && c[6] == "\n"@ && c[7] == "$("@);
    if spec_chains(cmd) {
        let i = choose|i: int| 0 <= i < c.len() && spec_contains(cmd, #[trigger] c[i]);
        if i == 0 {} else if i == 1 {} else if i == 2 {} else if i == 3 {} else if i == 4 {} else if i == 5 {}
        else if i == 6 {} else {}
    }
    if spec_contains(cmd, ";"@) { assert(spec_contains(cmd, c[0])); }
    if spec_contains(cmd, "&"@) { assert(spec_contains(cmd, c[1])); }
    if spec_contains(cmd, "|"@) { assert(spec_contains(cmd, c[2])); }
    if spec_contains(cmd, "`"@) { assert(spec_contains(cmd, c[3])); }
    if spec_contains(cmd, ">"@) { assert(spec_contains(cmd, c[4])); }
    if spec_contains(cmd, "<"@) { assert(spec_contains(cmd, c[5])); }
    if spec_contains(cmd, "\n"@) { assert(spec_contains(cmd, c[6])); }
    if spec_contains(cmd, "$("@) { assert(spec_contains(cmd, c[7])); }
}

/// Outside the shell, read-only mode allows exactly `read_file`,
/// `glob_search`, `grep_search`, `list_mcp_resources` and
/// `read_mcp_resource`; workspace-write mode allows every call but a shell
/// command holding a destructive fragment, which needs confirmation;
/// danger-full-access allows everything; any other mode blocks.
pub proof fn lemma_permission_modes(tool: Seq<char>, command: Option<Seq<char>>, mode: Seq<char>)
    ensures
        tool != "bash"@ ==> (permission_decision(tool, command, "read-only"@) is Allowed <==> (tool == "read_file"@
            || tool == "glob_search"@ || tool == "grep_search"@ || tool == "list_mcp_resources"@ || tool
            == "read_mcp_resource"@)),
        tool == "bash"@ && command is None ==> permission_decision(tool, command, "read-only"@) is Blocked,
        permission_decision(tool, command, "workspace-write"@) is RequiresConfirmation <==> (tool == "bash"@
            && command is Some && (spec_contains(command->0, "rm "@) || spec_contains(command->0, "rmdir "@)
            || spec_contains(command->0, "shred "@) || spec_contains(command->0, "dd "@) || spec_contains(
            command->0,
            "mkfs "@,
        ) || spec_contains(command->0, "truncate "@) || spec_contains(command->0, "sudo rm"@))),
        !(permission_decision(tool, command, "workspace-write"@) is RequiresConfirmation) ==> permission_decision(
            tool,
            command,
            "workspace-write"@,
        ) is Allowed,
        permission_decision(tool, command, "danger-full-access"@) is Allowed,
        mode != "read-only"@ && mode != "workspace-write"@ && mode != "danger-full-access"@ ==> permission_decision(
            tool,
            command,
            mode,
        ) is Blocked,
{
    reveal_strlit("read-only");
    reveal_strlit("workspace-write");
    reveal_strlit("danger-full-access");
    reveal_strlit("bash");
    assert("danger-full-access"@.len() != "read-only"@.len());
    assert("danger-full-access"@.len() != "workspace-write"@.len());
    assert("workspace-write"@.len() != "read-only"@.len());
    match command {
        Some(cmd) => {
            let d = destructive_fragments();
            assert(d.len() == 7);
            if spec_is_destructive(cmd) {
                let i = choose|i: int| 0 <= i < d.len() && spec_contains(cmd, #[trigger] d[i]);
                if i == 0 {} else if i == 1 {} else if i == 2 {} else if i == 3 {} else if i == 4 {}
                else if i == 5 {} else {}
            }
            if spec_contains(cmd, "rm "@) { assert(spec_contains(cmd, d[0])); }
            if spec_contains(cmd, "rmdir "@) { assert(spec_contains(cmd, d[1])); }
            if spec_contains(cmd, "shred "@) { assert(spec_contains(cmd, d[2])); }
            if spec_contains(cmd, "dd "@) { assert(spec_contains(cmd, d[3])); }
            if spec_contains(cmd, "mkfs "@) { assert(spec_contains(cmd, d[4])); }
            if spec_contains(cmd, "truncate "@) { assert(spec_contains(cmd, d[5])); }
            if spec_contains(cmd, "sudo rm"@) { assert(spec_contains(cmd, d[6])); }
        },
        None => {},
    }
}

} // verus!
