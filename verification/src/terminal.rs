use vstd::prelude::*;
use vstd::string::StringExecFns;

verus! {

/// Everything the embedder needs to spawn one terminal: the fixed
/// pseudo-terminal geometry, the command line, the working directory, and
/// the environment additions.
pub struct PtySpawnConfig {
    pub rows: u16,
    pub cols: u16,
    pub pixel_width: u16,
    pub pixel_height: u16,
    pub command: String,
    pub args: Vec<String>,
    pub working_dir: String,
    pub env: Vec<(String, String)>,
}

/// Build the spawn configuration for a terminal: a pseudo-terminal sized to
/// the fixed default of 24 rows by 80 columns, with `TERM` and `COLORTERM`
/// set so interactive programs render correctly, followed by the caller's
/// extra environment.
pub fn terminal_spawn_config(
    command: &str,
    args: Vec<String>,
    working_dir: &str,
    extra_env: Vec<(String, String)>,
) -> (c: PtySpawnConfig)
    ensures
        c.rows == 24,
        c.cols == 80,
        c.pixel_width == 0,
        c.pixel_height == 0,
        c.command@ == command@,
        c.args == args,
        c.working_dir@ == working_dir@,
        c.env@.len() == 2 + extra_env@.len(),
        c.env@[0].0@ == "TERM"@ && c.env@[0].1@ == "xterm-256color"@,
        c.env@[1].0@ == "COLORTERM"@ && c.env@[1].1@ == "truecolor"@,
        forall|i: int| 0 <= i < extra_env@.len() ==> c.env@[2 + i] == extra_env@[i],
{
    let mut env: Vec<(String, String)> = Vec::new();
    env.push((String::from_str("TERM"), String::from_str("xterm-256color")));
    env.push((String::from_str("COLORTERM"), String::from_str("truecolor")));
    let mut rest = extra_env;
    env.append(&mut rest);
    PtySpawnConfig {
        rows: 24,
        cols: 80,
        pixel_width: 0,
        pixel_height: 0,
        command: String::from_str(command),
        args,
        working_dir: String::from_str(working_dir),
        env,
    }
}

/// What the per-terminal output loop does with one read result: forward the
/// filled prefix of the read buffer to the event sink, or exit silently.
#[derive(Clone, PartialEq, Eq, Debug)]
pub enum ReaderStep {
    Emit(Vec<u8>),
    Stop,
}

/// Decide one iteration of the output loop. `received` carries the byte
/// count of a successful read (zero at end-of-stream); `None` stands for a
/// read error. A non-empty chunk is forwarded exactly as read, in arrival
/// order; end-of-stream and errors end the loop with no further event.
pub fn reader_step(buffer: &Vec<u8>, received: Option<usize>) -> (r: ReaderStep)
    requires
        received matches Some(n) ==> n <= buffer@.len(),
    ensures
        match received {
            Some(n) => if n == 0 {
                r == ReaderStep::Stop
            } else {
                r matches ReaderStep::Emit(chunk) && chunk@ == buffer@.subrange(0, n as int)
            },
            None => r == ReaderStep::Stop,
        },
{
    match received {
        Some(n) => {
            if n == 0 {
                ReaderStep::Stop
            } else {
                let mut chunk: Vec<u8> = Vec::new();
                let mut i: usize = 0;
                while i < n
                    invariant
                        i <= n,
                        n <= buffer@.len(),
                        chunk@ == buffer@.subrange(0, i as int),
                    decreases n - i,
                {
                    chunk.push(buffer[i]);
                    proof {
                        assert(chunk@ =~= buffer@.subrange(0, i + 1));
                    }
                    i = i + 1;
                }
                ReaderStep::Emit(chunk)
            }
        },
        None => ReaderStep::Stop,
    }
}

} // verus!
