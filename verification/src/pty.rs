//! The trusted boundary to the operating system's pseudo-terminals.
//!
//! Everything here either declares a `portable_pty` type or wraps one call
//! into that crate. The rest of the crate reasons about sessions purely
//! through the contracts on these items.

use vstd::prelude::*;
use crate::TermError;

verus! {

#[verifier::external_type_specification]
#[verifier::external_body]
pub struct ExCommandBuilder(portable_pty::CommandBuilder);

/// The master side of one pseudo-terminal pair, together with the single
/// writer handle that `portable_pty` allows to be taken from it. Opaque:
/// the trait objects inside cannot be declared to the verifier, so the
/// whole struct is held behind this boundary.
#[verifier::external_body]
pub struct PtyHandle {
    master: Box<dyn portable_pty::MasterPty + Send>,
    writer: Box<dyn std::io::Write + Send>,
}

/// An independent read handle onto the same pseudo-terminal, cloned from
/// the master at session creation and owned by the output listener.
#[verifier::external_body]
pub struct PtyReader {
    reader: Box<dyn std::io::Read + Send>,
}

/// The program a builder will spawn: what `CommandBuilder::new` was given
/// as argv.
pub uninterp spec fn builder_program(c: portable_pty::CommandBuilder) -> Seq<char>;

/// The environment overrides set on a builder by its caller, as a map;
/// the base environment underneath is the spawning process's and is not
/// modelled.
pub uninterp spec fn builder_env(c: portable_pty::CommandBuilder) -> Map<Seq<char>, Seq<char>>;

/// The working directory set on a builder, if any.
pub uninterp spec fn builder_cwd(c: portable_pty::CommandBuilder) -> Option<Seq<char>>;

/// The empty override map: what a fresh builder starts with.
pub open spec fn spec_no_overrides() -> Map<Seq<char>, Seq<char>> {
    Map::empty()
}

/// Relies on `portable_pty::CommandBuilder::new`: a builder whose argv is
/// the given program, with no caller overrides and no working directory
/// yet, over the spawning process's base environment.
#[verifier::external_body]
pub fn command_new(program: &str) -> (r: portable_pty::CommandBuilder)
    ensures
        builder_program(r) == program@,
        builder_env(r) == spec_no_overrides(),
        builder_cwd(r) is None,
{
    portable_pty::CommandBuilder::new(program)
}

/// Relies on `portable_pty::CommandBuilder::env`: overrides one
/// environment variable of the command being built, leaving the program
/// and working directory alone.
#[verifier::external_body]
pub fn command_env(cmd: &mut portable_pty::CommandBuilder, key: &str, value: &str)
    ensures
        builder_program(*final(cmd)) == builder_program(*old(cmd)),
        builder_env(*final(cmd)) == builder_env(*old(cmd)).insert(key@, value@),
        builder_cwd(*final(cmd)) == builder_cwd(*old(cmd)),
{
    cmd.env(key, value);
}

/// Relies on `portable_pty::CommandBuilder::cwd`: sets the working
/// directory the command will start in, leaving the program and
/// environment alone.
#[verifier::external_body]
pub fn command_cwd(cmd: &mut portable_pty::CommandBuilder, dir: &str)
    ensures
        builder_program(*final(cmd)) == builder_program(*old(cmd)),
        builder_env(*final(cmd)) == builder_env(*old(cmd)),
        builder_cwd(*final(cmd)) == Some(dir@),
{
    cmd.cwd(dir);
}

/// Relies on `portable_pty`: `native_pty_system().openpty` allocates a
/// master/slave pair of the given size, and `slave.spawn_command` launches
/// exactly the built command — the builder's program, with its environment
/// overrides and working directory — on the slave end;
/// `try_clone_reader`/`take_writer` hand out the master's I/O handles.
/// Failures surface as the pty and spawn errors respectively; nothing
/// else can come back.
#[verifier::external_body]
pub fn pty_open(rows: u16, cols: u16, cmd: portable_pty::CommandBuilder) -> (r: Result<
    (PtyHandle, PtyReader),
    TermError,
>)
    ensures
        r matches Err(e) ==> (e matches TermError::Pty(_) || e matches TermError::Spawn(_)),
{
    let size = portable_pty::PtySize { rows, cols, pixel_width: 0, pixel_height: 0 };
    let pair = portable_pty::native_pty_system().openpty(size).map_err(
        |e| TermError::Pty(format!("Failed to create PTY: {}", e)),
    )?;
    let _child = pair.slave.spawn_command(cmd).map_err(
        |e| TermError::Spawn(format!("Failed to spawn shell: {}", e)),
    )?;
    let reader = pair.master.try_clone_reader().map_err(
        |e| TermError::Pty(format!("Failed to clone PTY reader: {}", e)),
    )?;
    let writer = pair.master.take_writer().map_err(
        |e| TermError::Pty(format!("Failed to take PTY writer: {}", e)),
    )?;
    Ok((PtyHandle { master: pair.master, writer }, PtyReader { reader }))
}

impl PtyHandle {
    /// Relies on `std::io::Write::write_all` on the writer handle, which
    /// writes straight to the terminal's file descriptor: on success
    /// every byte of `data` reached the slave's input; a failure surfaces
    /// as an I/O error and nothing else.
    #[verifier::external_body]
    pub fn write_all(&mut self, data: &str) -> (r: Result<(), TermError>)
        ensures
            r matches Err(e) ==> e matches TermError::Io(_),
    {
        self.writer.write_all(data.as_bytes()).map_err(
            |e| TermError::Io(format!("Failed to write to PTY: {}", e)),
        )
    }

    /// Relies on `portable_pty::MasterPty::resize`: tells the kernel the
    /// new window size; a failure surfaces as a pty error and nothing
    /// else.
    #[verifier::external_body]
    pub fn resize(&mut self, rows: u16, cols: u16) -> (r: Result<(), TermError>)
        ensures
            r matches Err(e) ==> e matches TermError::Pty(_),
    {
        let size = portable_pty::PtySize { rows, cols, pixel_width: 0, pixel_height: 0 };
        self.master.resize(size).map_err(
            |e| TermError::Pty(format!("Failed to resize PTY: {}", e)),
        )
    }
}

impl PtyReader {
    /// Relies on `std::io::Read::read` on the reader handle: the returned
    /// bytes fit the fixed read buffer, an empty result means end of
    /// stream, and a failure surfaces as an I/O error.
    #[verifier::external_body]
    pub fn read_chunk(&mut self) -> (r: Result<Vec<u8>, TermError>)
        ensures
            r matches Ok(v) ==> v@.len() <= 1024,
    {
        let mut buf = [0u8; 1024];
        match self.reader.read(&mut buf) {
            Ok(n) => Ok(buf[..n].to_vec()),
            Err(e) => Err(TermError::Io(format!("Error reading from PTY: {}", e))),
        }
    }
}

} // verus!
