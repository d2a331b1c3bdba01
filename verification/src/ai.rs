//! The assistant-facing data shapes and the decision logic of the tool
//! server.
//!
//! The chat client itself — its HTTP traffic and streaming — is an
//! external collaborator; it consumes the session core only through the
//! manager. What lives here is the part of it that computes: the request
//! and response shapes, the file-matching rules of the tool server, and
//! the command extraction applied to model replies.

use vstd::prelude::*;
use crate::text;
use vstd::string::StrSliceExecFns;
use vstd::string::StringExecFns;

verus! {

/// One message of a chat exchange.
pub struct ChatMessage {
    pub role: String,
    pub content: String,
}

/// A chat completion reply.
pub struct ChatResponse {
    pub choices: Vec<Choice>,
}

/// One alternative of a chat completion reply.
pub struct Choice {
    pub message: Option<ChatMessage>,
    pub delta: Option<ChatMessage>,
    pub finish_reason: Option<String>,
}

/// An error reply from the completion service.
pub struct ErrorResponse {
    pub error: ErrorDetail,
}

/// The body of an error reply.
pub struct ErrorDetail {
    pub message: String,
    pub kind: String,
    pub param: Option<String>,
    pub code: String,
}

/// How a command is to be executed: inside the persistent terminal
/// session, or as a one-shot process.
#[derive(Clone, Copy, Debug, PartialEq, Eq, Structural)]
pub enum ExecutionType {
    Terminal,
    Process,
}

/// A request to run a command.
pub struct ExecuteCommandRequest {
    pub command: String,
    pub execution_type: Option<String>,
    pub timeout_seconds: Option<u64>,
}

/// A request to read a file.
pub struct ReadFileRequest {
    pub path: String,
    pub encoding: Option<String>,
}

/// A request to write a file.
pub struct WriteFileRequest {
    pub path: String,
    pub content: String,
    pub encoding: Option<String>,
    pub append: Option<bool>,
}

/// A request to search for files.
pub struct FindFilesRequest {
    pub directory: String,
    pub pattern: Option<String>,
    pub extension: Option<String>,
    pub recursive: Option<bool>,
}

/// One incremental message fragment of a streamed reply.
pub struct DeltaMessage {
    pub content: Option<String>,
    pub role: Option<String>,
}

/// One alternative of a streamed reply fragment.
pub struct StreamChoice {
    pub delta: Option<DeltaMessage>,
    pub finish_reason: Option<String>,
}

/// One fragment of a streamed reply.
pub struct StreamChunk {
    pub choices: Vec<StreamChoice>,
}

impl ExecuteCommandRequest {
    /// Where the command runs: in the terminal session exactly when the
    /// request says `terminal`; any other or missing value means a
    /// one-shot process.
    pub fn execution_kind(&self) -> (r: ExecutionType)
        ensures
            (match self.execution_type {
                Some(s) => s@ == "terminal"@,
                None => false,
            }) ==> r == ExecutionType::Terminal,
            !(match self.execution_type {
                Some(s) => s@ == "terminal"@,
                None => false,
            }) ==> r == ExecutionType::Process,
    {
        match &self.execution_type {
            Some(s) => {
                if text::str_eq(s.as_str(), "terminal") {
                    ExecutionType::Terminal
                } else {
                    ExecutionType::Process
                }
            },
            None => ExecutionType::Process,
        }
    }
}

/// The requested extension matches the file's: no extension was asked
/// for, or the file has one equal to it up to ASCII case.
pub open spec fn spec_extension_ok(
    file_ext: Option<Seq<char>>,
    extension: Option<Seq<char>>,
) -> bool {
    match extension {
        None => true,
        Some(e) => match file_ext {
            None => false,
            Some(fe) => text::spec_eq_ignore_case(fe, e),
        },
    }
}

/// The filename matches the requested pattern: with exactly one `*` the
/// pattern splits into a required prefix and suffix; with none it must
/// occur as a substring; with more than one, or with no pattern at all,
/// everything matches.
pub open spec fn spec_pattern_ok(filename: Seq<char>, pattern: Option<Seq<char>>) -> bool {
    match pattern {
        None => true,
        Some(p) => if text::spec_count_char(p, '*') == 1 {
            match text::spec_find(p, seq!['*']) {
                Some(i) => text::spec_starts_with(filename, p.subrange(0, i))
                    && text::spec_ends_with(filename, p.subrange(i + 1, p.len() as int)),
                None => true,
            }
        } else if text::spec_count_char(p, '*') == 0 {
            text::spec_contains_sub(filename, p)
        } else {
            true
        },
    }
}

/// The file passes both the extension and the pattern criterion.
pub open spec fn spec_matches_criteria(
    filename: Seq<char>,
    file_ext: Option<Seq<char>>,
    pattern: Option<Seq<char>>,
    extension: Option<Seq<char>>,
) -> bool {
    spec_extension_ok(file_ext, extension) && spec_pattern_ok(filename, pattern)
}

/// The command text between the quotes that follow the first
/// `"command":` key after the first `execute_command` marker, if the
/// reply holds that shape.
pub open spec fn spec_extract_command(s: Seq<char>) -> Option<Seq<char>> {
    match text::spec_find(s, "execute_command"@) {
        None => None,
        Some(st) => match text::spec_find(s.skip(st), "\"command\":"@) {
            None => None,
            Some(cpos) => {
                let ss = st + cpos + 11;
                if ss > s.len() {
                    None
                } else {
                    match text::spec_find(s.skip(ss), "\""@) {
                        None => None,
                        Some(e) => Some(s.subrange(ss, ss + e)),
                    }
                }
            },
        },
    }
}

/// The reply names one of the four tool commands.
pub open spec fn spec_contains_mcp_commands(s: Seq<char>) -> bool {
    text::spec_contains_sub(s, "execute_command"@) || text::spec_contains_sub(s, "read_file"@)
        || text::spec_contains_sub(s, "write_file"@) || text::spec_contains_sub(s, "find_files"@)
}

/// Decides whether a model reply asks for one of the tool commands.
pub fn contains_mcp_commands(content: &str) -> (r: bool)
    ensures
        r == spec_contains_mcp_commands(content@),
{
    let cs = text::chars_vec(content);
    text::contains_sub(&cs, &text::chars_vec("execute_command")) || text::contains_sub(
        &cs,
        &text::chars_vec("read_file"),
    ) || text::contains_sub(&cs, &text::chars_vec("write_file")) || text::contains_sub(
        &cs,
        &text::chars_vec("find_files"),
    )
}

/// Pulls the quoted command text out of a model reply, if the reply
/// carries an `execute_command` request in the expected shape.
pub fn extract_command_from_content(content: &str) -> (r: Option<String>)
    ensures
        r matches Some(c) ==> spec_extract_command(content@) == Some(c@),
        r is None ==> spec_extract_command(content@) is None,
{
    let cs = text::chars_vec(content);
    let marker = text::chars_vec("execute_command");
    let start = match text::find_sub(&cs, &marker) {
        None => {
            return None;
        },
        Some(start) => start,
    };
    proof {
        text::lemma_find_from(cs@, marker@, 0);
    }
    let tail = text::copy_range(&cs, start, cs.len());
    proof {
        assert(tail@ =~= cs@.skip(start as int));
    }
    let key = text::chars_vec("\"command\":");
    let cpos = match text::find_sub(&tail, &key) {
        None => {
            return None;
        },
        Some(cpos) => cpos,
    };
    proof {
        text::lemma_find_from(tail@, key@, 0);
    }
    if tail.len() - cpos < 11 {
        proof {
            assert(start + cpos + 11 > cs@.len());
        }
        return None;
    }
    let rel = cpos + 11;
    let rest = text::copy_range(&tail, rel, tail.len());
    proof {
        assert(rest@ =~= cs@.skip(start + cpos + 11));
    }
    let quote = text::chars_vec("\"");
    match text::find_sub(&rest, &quote) {
        None => None,
        Some(e) => {
            proof {
                text::lemma_find_from(rest@, quote@, 0);
            }
            let piece = text::copy_range(&rest, 0, e);
            proof {
                assert(piece@ =~= cs@.subrange(
                    start + cpos + 11,
                    start + cpos + 11 + e,
                ));
            }
            Some(text::string_from_chars(&piece))
        },
    }
}

/// The tool server behind the assistant: runs commands, touches files,
/// and searches directories for its caller. The side-effecting work is
/// the application's; the matching rules live here.
pub struct EnhancedTerminalMCPServer;

impl EnhancedTerminalMCPServer {
    /// A fresh tool server.
    pub fn new() -> (r: Self) {
        EnhancedTerminalMCPServer
    }

    /// Decides whether a file, given as its name and extension, meets
    /// the search criteria.
    pub fn matches_criteria(
        &self,
        filename: &str,
        file_extension: Option<&str>,
        pattern: &Option<String>,
        extension: &Option<String>,
    ) -> (r: bool)
        ensures
            r == spec_matches_criteria(
                filename@,
                text::spec_view_opt(file_extension),
                text::spec_view_opt_string(*pattern),
                text::spec_view_opt_string(*extension),
            ),
    {
        match extension {
            Some(e) => {
                match file_extension {
                    Some(fe) => {
                        if !text::eq_ignore_case(fe, e.as_str()) {
                            return false;
                        }
                    },
                    None => {
                        return false;
                    },
                }
            },
            None => {},
        }
        match pattern {
            None => true,
            Some(p) => {
                let pc = text::chars_vec(p.as_str());
                let stars = text::count_char(&pc, '*');
                if stars == 1 {
                    let mut star: Vec<char> = Vec::new();
                    star.push('*');
                    proof {
                        assert(star@ =~= seq!['*']);
                        text::lemma_count_char_pos(pc@, '*');
                        text::lemma_find_from(pc@, seq!['*'], 0);
                        let j = choose|j: int| 0 <= j < pc@.len() && pc@[j] == '*';
                        assert(pc@.subrange(j, j + 1) =~= seq!['*']);
                        assert(text::spec_match_at(pc@, seq!['*'], j));
                    }
                    match text::find_sub(&pc, &star) {
                        Some(i) => {
                            proof {
                                text::lemma_find_from(pc@, seq!['*'], 0);
                                assert(text::spec_match_at(pc@, star@, i as int));
                                assert(i + 1 <= pc@.len());
                            }
                            if i < pc.len() {
                                let fc = text::chars_vec(filename);
                                let prefix = text::copy_range(&pc, 0, i);
                                let suffix = text::copy_range(&pc, i + 1, pc.len());
                                text::starts_with_chars(&fc, &prefix) && text::ends_with_chars(
                                    &fc,
                                    &suffix,
                                )
                            } else {
                                vstd::pervasive::unreached()
                            }
                        },
                        None => vstd::pervasive::unreached(),
                    }
                } else if stars == 0 {
                    let fc = text::chars_vec(filename);
                    text::contains_sub(&fc, &pc)
                } else {
                    true
                }
            },
        }
    }
}

} // verus!
