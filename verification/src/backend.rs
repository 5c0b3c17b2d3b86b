use vstd::prelude::*;

verus! {

/// What a backend operation can report. A genuine I/O failure of a real
/// pseudo-terminal is not an error of this model interface: the driver
/// that observes one hands the multiplexer a fault event, which stops
/// the session with an I/O-failure reason.
#[derive(Clone, Copy, Debug, PartialEq, Eq, Structural)]
pub enum BackendError {
    /// An operation needed a spawned shell and none was spawned yet.
    NotSpawned,
    /// The one shell of this session was already spawned.
    AlreadySpawned,
    /// The shell side is gone; resizing reports this, callers may ignore
    /// it.
    SessionClosed,
}

/// The capability interface of a PTY session backend: spawn the one
/// shell, read and write the master end, resize the window. One variant
/// is compiled into a deployment; a program driving a real
/// pseudo-terminal implements this at its edge, and the library provides
/// the scripted variant below.
pub trait PtyBackend: Sized {
    /// Whether the session's shell was spawned.
    spec fn spawned(&self) -> bool;

    /// Whether the shell side is still attached: it has not yet reached
    /// end of stream.
    spec fn alive(&self) -> bool;

    /// The PTY geometry, as rows and columns.
    spec fn geometry(&self) -> (u16, u16);

    /// The output the shell side has yet to deliver, as a model of the
    /// stream: reads hand it out in order, without loss or duplication.
    spec fn remaining(&self) -> Seq<u8>;

    /// Every byte written to the master so far: what the shell side has
    /// seen on its input.
    spec fn received(&self) -> Seq<u8>;

    /// Spawn the shell. Exactly one shell may be spawned per session:
    /// spawning succeeds exactly when none was spawned yet, and a
    /// refused spawn changes nothing.
    fn spawn_shell(&mut self) -> (r: Result<(), BackendError>)
        ensures
            r is Ok <==> !old(self).spawned(),
            old(self).spawned() ==> (r == Err::<(), BackendError>(BackendError::AlreadySpawned)
                && *final(self) == *old(self)),
            r is Ok ==> (final(self).spawned() && final(self).geometry() == old(self).geometry()
                && final(self).remaining() == old(self).remaining() && final(self).received()
                == old(self).received()),
    ;

    /// Read the next available output chunk from the master end. A read
    /// on a spawned session always succeeds -- in particular at end of
    /// stream, where the empty chunk is the termination signal, never an
    /// error -- and a refused read changes nothing.
    fn read_master(&mut self) -> (r: Result<Vec<u8>, BackendError>)
        ensures
            r is Ok <==> old(self).spawned(),
            !old(self).spawned() ==> (r == Err::<Vec<u8>, BackendError>(BackendError::NotSpawned)
                && *final(self) == *old(self)),
            r is Ok ==> (final(self).spawned() && final(self).geometry() == old(self).geometry()
                && final(self).received() == old(self).received()),
            r matches Ok(c) ==> (c@ == old(self).remaining().take(c@.len() as int)
                && final(self).remaining() == old(self).remaining().skip(c@.len() as int)),
            (r matches Ok(c) && c@.len() == 0) ==> (old(self).remaining().len() == 0
                && !final(self).alive()),
    ;

    /// Write bytes to the master end, the shell's input. A write on a
    /// spawned session always succeeds; partial writes are legal, and
    /// the result says how many leading bytes were taken. A refused
    /// write changes nothing.
    fn write_master(&mut self, buf: &[u8]) -> (r: Result<usize, BackendError>)
        ensures
            r is Ok <==> old(self).spawned(),
            !old(self).spawned() ==> (r == Err::<usize, BackendError>(BackendError::NotSpawned)
                && *final(self) == *old(self)),
            r matches Ok(n) ==> n <= buf@.len(),
            r matches Ok(n) ==> final(self).received() == old(self).received() + buf@.take(
                n as int,
            ),
            r is Ok ==> (final(self).spawned() && final(self).geometry() == old(self).geometry()
                && final(self).remaining() == old(self).remaining()),
    ;

    /// Update the PTY's window size; the attached shell observes the new
    /// geometry. Resizing succeeds exactly while the session is not yet
    /// spawned or the shell is still attached; once the shell side is
    /// gone it reports the session closed -- which callers may ignore --
    /// and changes nothing.
    fn resize(&mut self, rows: u16, cols: u16) -> (r: Result<(), BackendError>)
        ensures
            r is Ok <==> !(old(self).spawned() && !old(self).alive()),
            (old(self).spawned() && !old(self).alive()) ==> (r == Err::<(), BackendError>(
                BackendError::SessionClosed,
            ) && *final(self) == *old(self)),
            r is Ok ==> (final(self).geometry() == (rows, cols)
                && final(self).spawned() == old(self).spawned()
                && final(self).remaining() == old(self).remaining()
                && final(self).received() == old(self).received()),
    ;
}

/// The backend variant this library compiles in: a deterministic,
/// in-process PTY whose shell side plays a fixed output script and
/// collects whatever is written to it. Programs that attach a real
/// operating-system PTY implement `PtyBackend` at their own edge.
pub struct ScriptedBackend {
    remaining_output: Vec<u8>,
    received: Vec<u8>,
    is_spawned: bool,
    rows: u16,
    cols: u16,
}

impl ScriptedBackend {
    /// A backend whose shell side will produce exactly `output` and then
    /// close, under the given initial geometry.
    pub fn new(output: Vec<u8>, rows: u16, cols: u16) -> (r: Self)
        ensures
            !r.spawned(),
            r.remaining() == output@,
            r.received() == Seq::<u8>::empty(),
            r.geometry() == (rows, cols),
    {
        ScriptedBackend {
            remaining_output: output,
            received: Vec::new(),
            is_spawned: false,
            rows,
            cols,
        }
    }

    /// The geometry the attached scripted shell observes.
    pub fn shell_reported_size(&self) -> (r: (u16, u16))
        ensures
            r == self.geometry(),
    {
        (self.rows, self.cols)
    }

    /// The input bytes the scripted shell has received.
    pub fn shell_received(&self) -> (r: &Vec<u8>)
        ensures
            r@ == self.received(),
    {
        &self.received
    }

    /// Whether the scripted shell still has output to deliver.
    pub fn shell_alive(&self) -> (r: bool)
        ensures
            r == self.alive(),
    {
        self.is_spawned && self.remaining_output.len() > 0
    }
}

impl PtyBackend for ScriptedBackend {
    closed spec fn spawned(&self) -> bool {
        self.is_spawned
    }

    closed spec fn alive(&self) -> bool {
        self.is_spawned && self.remaining_output@.len() > 0
    }

    closed spec fn geometry(&self) -> (u16, u16) {
        (self.rows, self.cols)
    }

    closed spec fn remaining(&self) -> Seq<u8> {
        self.remaining_output@
    }

    closed spec fn received(&self) -> Seq<u8> {
        self.received@
    }

    fn spawn_shell(&mut self) -> (r: Result<(), BackendError>) {
        if self.is_spawned {
            Err(BackendError::AlreadySpawned)
        } else {
            self.is_spawned = true;
            Ok(())
        }
    }

    fn read_master(&mut self) -> (r: Result<Vec<u8>, BackendError>) {
        if !self.is_spawned {
            return Err(BackendError::NotSpawned);
        }
        let mut chunk: Vec<u8> = Vec::new();
        core::mem::swap(&mut chunk, &mut self.remaining_output);
        proof {
            assert(chunk@.take(chunk@.len() as int) =~= chunk@);
            assert(chunk@.skip(chunk@.len() as int) =~= Seq::<u8>::empty());
        }
        Ok(chunk)
    }

    fn write_master(&mut self, buf: &[u8]) -> (r: Result<usize, BackendError>) {
        if !self.is_spawned {
            return Err(BackendError::NotSpawned);
        }
        let mut k: usize = 0;
        while k < buf.len()
            invariant
                k <= buf@.len(),
                self.is_spawned == old(self).is_spawned,
                self.rows == old(self).rows,
                self.cols == old(self).cols,
                self.remaining_output@ == old(self).remaining_output@,
                self.received@ == old(self).received@ + buf@.take(k as int),
            decreases buf@.len() - k,
        {
            self.received.push(buf[k]);
            k = k + 1;
            proof {
                assert(old(self).received@ + buf@.take(k as int) =~= (old(self).received@
                    + buf@.take(k - 1)).push(buf@[k - 1]));
            }
        }
        proof {
            assert(buf@.take(buf@.len() as int) =~= buf@);
        }
        Ok(buf.len())
    }

    fn resize(&mut self, rows: u16, cols: u16) -> (r: Result<(), BackendError>) {
        if self.is_spawned && self.remaining_output.len() == 0 {
            return Err(BackendError::SessionClosed);
        }
        self.rows = rows;
        self.cols = cols;
        Ok(())
    }
}

/// The backend selected for this build of the library: a fresh scripted
/// backend at the conventional initial geometry.
pub fn create_backend() -> (r: ScriptedBackend)
    ensures
        !r.spawned(),
        r.remaining() == Seq::<u8>::empty(),
        r.received() == Seq::<u8>::empty(),
        r.geometry() == (24u16, 80u16),
{
    ScriptedBackend::new(Vec::new(), 24, 80)
}

/// The shell the session runs: the preferred name when one is given
/// (the driver passes the SHELL environment variable's value), a
/// standard default otherwise.
pub fn shell_program(preferred: Option<String>) -> (r: String)
    ensures
        preferred matches Some(s) ==> r == s,
        preferred is None ==> r@ == "bash"@,
{
    match preferred {
        Some(s) => s,
        None => "bash".to_owned(),
    }
}

} // verus!
