use vstd::prelude::*;

verus! {

/// A command-line tool found on the search path.
#[derive(Clone, Debug)]
pub struct CliTool {
    pub id: String,
    pub name: String,
    pub command: String,
    pub version: String,
}

/// How an MCP server from a configuration file is shown.
#[derive(Clone, Debug)]
pub struct McpServerLabel {
    pub id: String,
    pub name: String,
}

/// What `String::from_utf8_lossy` makes of a byte string.
pub uninterp spec fn utf8_lossy_of(b: Seq<u8>) -> Seq<char>;

/// What `str::trim` leaves of a string.
pub uninterp spec fn trim_of(s: Seq<char>) -> Seq<char>;

/// Relies on String::from_utf8_lossy: the bytes as text, invalid sequences replaced; the
/// result depends on the bytes alone.
#[verifier::external_body]
fn decode_lossy(b: &Vec<u8>) -> (r: String)
    ensures
        r@ == utf8_lossy_of(b@),
{
    String::from_utf8_lossy(b.as_slice()).into_owned()
}

/// Relies on str::trim: the string without leading and trailing white space; the result
/// depends on the characters alone.
#[verifier::external_body]
fn trim(s: &String) -> (r: String)
    ensures
        r@ == trim_of(s@),
{
    s.as_str().trim().to_string()
}

/// Text printed by a probe, as the tool entry records it.
pub open spec fn probe_text(out: Seq<u8>) -> Seq<char> {
    trim_of(utf8_lossy_of(out))
}

/// The text a probe printed, decoded and trimmed.
pub fn probe_output_text(out: &Vec<u8>) -> (r: String)
    ensures
        r@ == probe_text(out@),
{
    trim(&decode_lossy(out))
}

fn joined(a: &str, b: &str) -> (r: String)
    ensures
        r@ == a@ + b@,
{
    let mut r = String::from_str(a);
    r.append(b);
    r
}

/// The entry of a tool found at `command_path` (already trimmed), with the version it
/// reported, or "unknown"; none when the path is empty.
pub fn cli_tool(tool_name: &String, command_path: String, version: Option<String>) -> (r: Option<
    CliTool,
>)
    ensures
        command_path@.len() == 0 <==> r is None,
        r matches Some(t) ==> {
            &&& t.id@ == "cli-"@ + tool_name@
            &&& t.name@ == tool_name@ + " (CLI)"@
            &&& t.command@ == command_path@
            &&& t.version@ == match version {
                Some(v) => v@,
                None => "unknown"@,
            }
        },
{
    if command_path.as_str().is_empty() {
        return None;
    }
    let version = match version {
        Some(v) => v,
        None => String::from_str("unknown"),
    };
    Some(
        CliTool {
            id: joined("cli-", tool_name.as_str()),
            name: joined(tool_name.as_str(), " (CLI)"),
            command: command_path,
            version,
        },
    )
}

/// The entry of a tool from what its probes printed: `located` is the output of the path
/// lookup and `reported` that of `--version`, each present only when the probe succeeded.
pub fn detect_cli_tool(tool_name: &String, located: Option<Vec<u8>>, reported: Option<Vec<u8>>) -> (r:
    Option<CliTool>)
    ensures
        located is None ==> r is None,
        located matches Some(out) ==> (probe_text(out@).len() == 0 <==> r is None),
        r matches Some(t) ==> {
            &&& t.id@ == "cli-"@ + tool_name@
            &&& t.name@ == tool_name@ + " (CLI)"@
            &&& located is Some && t.command@ == probe_text(located->Some_0@)
            &&& t.version@ == match reported {
                Some(out) => probe_text(out@),
                None => "unknown"@,
            }
        },
{
    let out = match located {
        None => {
            return None;
        },
        Some(out) => out,
    };
    let command_path = probe_output_text(&out);
    let version = match reported {
        None => None,
        Some(v) => Some(probe_output_text(&v)),
    };
    cli_tool(tool_name, command_path, version)
}

/// The id and display name of a configured MCP server.
pub fn mcp_server_label(server_id: &String) -> (r: McpServerLabel)
    ensures
        r.id@ == "mcp-"@ + server_id@,
        r.name@ == server_id@ + " (MCP)"@,
{
    McpServerLabel { id: joined("mcp-", server_id.as_str()), name: joined(server_id.as_str(), " (MCP)") }
}

} // verus!
