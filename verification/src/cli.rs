//! The choice of what the program runs, from its command-line options.
use vstd::prelude::*;

verus! {

/// What the program runs.
#[derive(Debug)]
pub enum RunMode {
    /// The MCP server over standard input and output.
    McpStdio { api_key: String },
    /// The MCP server over HTTP on `port`.
    McpHttp { api_key: String, port: u16 },
    /// One prompt, answered on standard output.
    Prompt { api_key: String, prompt: String },
}

/// Why the options do not make a run.
#[derive(Debug, Clone, Copy, PartialEq, Eq)]
pub enum CliError {
    MissingApiKey,
    ConflictingServerModes,
    MissingPrompt,
}

impl CliError {
    /// The line printed for the error.
    pub open spec fn text(self) -> Seq<char> {
        match self {
            CliError::MissingApiKey => "Error: API key not set. Set the GEMINI_API_KEY environment variable."@,
            CliError::ConflictingServerModes => "Error: --mcp-server and --mcp-http-port are mutually exclusive."@,
            CliError::MissingPrompt => "Error: --prompt (-p) is required in CLI mode."@,
        }
    }

    /// The line printed for the error.
    pub fn message(&self) -> (m: String)
        ensures
            m@ == self.text(),
    {
        match self {
            CliError::MissingApiKey => String::from_str(
                "Error: API key not set. Set the GEMINI_API_KEY environment variable.",
            ),
            CliError::ConflictingServerModes => String::from_str(
                "Error: --mcp-server and --mcp-http-port are mutually exclusive.",
            ),
            CliError::MissingPrompt => String::from_str(
                "Error: --prompt (-p) is required in CLI mode.",
            ),
        }
    }
}

/// Chooses the run from the options, checking in order: an API key is set;
/// the two server modes are not both asked for; outside the server modes, a
/// prompt is given.
pub fn choose_mode(
    api_key: Option<String>,
    mcp_server: bool,
    mcp_http_port: Option<u16>,
    prompt: Option<String>,
) -> (r: Result<RunMode, CliError>)
    ensures
        api_key is None ==> r == Err::<RunMode, CliError>(CliError::MissingApiKey),
        api_key matches Some(k) ==> {
            if mcp_server && mcp_http_port is Some {
                r == Err::<RunMode, CliError>(CliError::ConflictingServerModes)
            } else if mcp_server {
                r == Ok::<RunMode, CliError>(RunMode::McpStdio { api_key: k })
            } else if mcp_http_port is Some {
                r == Ok::<RunMode, CliError>(
                    RunMode::McpHttp { api_key: k, port: mcp_http_port->0 },
                )
            } else {
                match prompt {
                    Some(p) => r == Ok::<RunMode, CliError>(
                        RunMode::Prompt { api_key: k, prompt: p },
                    ),
                    None => r == Err::<RunMode, CliError>(CliError::MissingPrompt),
                }
            }
        },
{
    let api_key = match api_key {
        Some(k) => k,
        None => {
            return Err(CliError::MissingApiKey);
        },
    };
    if mcp_server && mcp_http_port.is_some() {
        return Err(CliError::ConflictingServerModes);
    }
    if mcp_server {
        Ok(RunMode::McpStdio { api_key })
    } else {
        match mcp_http_port {
            Some(port) => Ok(RunMode::McpHttp { api_key, port }),
            None => match prompt {
                Some(p) => Ok(RunMode::Prompt { api_key, prompt: p }),
                None => Err(CliError::MissingPrompt),
            },
        }
    }
}

} // verus!
