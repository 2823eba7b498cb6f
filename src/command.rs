//! Collecting a command's output under a bounded idle wait.
use vstd::prelude::*;

verus! {

/// How many empty reads, each followed by a short sleep, are tolerated
/// before any output has arrived.
pub const IDLE_READ_ATTEMPTS: u32 = 100;

/// What the caller does next.
#[derive(Debug, Clone, Copy, PartialEq, Eq, Structural)]
pub enum ReadAction {
    /// Nothing has arrived yet: sleep briefly, then read again.
    SleepThenRead,
    /// Output is flowing: read again at once.
    ReadAgain,
    /// Collection is over.
    Stop,
}

pub struct ReaderView {
    /// No byte has been read yet.
    pub waiting: bool,
    pub attempts_left: nat,
    pub stopped: bool,
    /// Stopped because the idle wait ran out with nothing read.
    pub gave_up: bool,
    pub output: Seq<u8>,
}

/// The effect of a read that returned `bytes` (empty: nothing available).
/// While waiting, an empty read costs one attempt, and ends collection once
/// none is left; the first bytes start the drain phase, in which an empty
/// read ends collection. A stopped reader stays as it is.
pub open spec fn after_read(v: ReaderView, bytes: Seq<u8>) -> (ReaderView, ReadAction) {
    if v.stopped {
        (v, ReadAction::Stop)
    } else if bytes.len() == 0 {
        if v.waiting && v.attempts_left > 0 {
            (ReaderView { attempts_left: (v.attempts_left - 1) as nat, ..v }, ReadAction::SleepThenRead)
        } else {
            (ReaderView { stopped: true, gave_up: v.waiting, ..v }, ReadAction::Stop)
        }
    } else {
        (ReaderView { waiting: false, output: v.output + bytes, ..v }, ReadAction::ReadAgain)
    }
}

/// Decides, read by read, when a command's output is complete, and keeps
/// what was read.
pub struct OutputReader {
    waiting: bool,
    attempts_left: u32,
    stopped: bool,
    gave_up: bool,
    output: Vec<u8>,
}

impl View for OutputReader {
    type V = ReaderView;

    closed spec fn view(&self) -> ReaderView {
        ReaderView {
            waiting: self.waiting,
            attempts_left: self.attempts_left as nat,
            stopped: self.stopped,
            gave_up: self.gave_up,
            output: self.output@,
        }
    }
}

impl OutputReader {
    pub fn new() -> (r: OutputReader)
        ensures
            r@ == (ReaderView {
                waiting: true,
                attempts_left: IDLE_READ_ATTEMPTS as nat,
                stopped: false,
                gave_up: false,
                output: Seq::empty(),
            }),
    {
        OutputReader {
            waiting: true,
            attempts_left: IDLE_READ_ATTEMPTS,
            stopped: false,
            gave_up: false,
            output: Vec::new(),
        }
    }

    /// Takes the bytes of one read (see `after_read`).
    pub fn on_read(&mut self, bytes: &[u8]) -> (r: ReadAction)
        ensures
            (final(self)@, r) == after_read(old(self)@, bytes@),
    {
        if self.stopped {
            return ReadAction::Stop;
        }
        if bytes.len() == 0 {
            if self.waiting && self.attempts_left > 0 {
                self.attempts_left = self.attempts_left - 1;
                ReadAction::SleepThenRead
            } else {
                self.gave_up = self.waiting;
                self.stopped = true;
                ReadAction::Stop
            }
        } else {
            let mut i: usize = 0;
            while i < bytes.len()
                invariant
                    i <= bytes@.len(),
                    self.output@ == old(self).output@ + bytes@.subrange(0, i as int),
                    self.waiting == old(self).waiting,
                    self.attempts_left == old(self).attempts_left,
                    self.stopped == old(self).stopped,
                    self.gave_up == old(self).gave_up,
                decreases bytes@.len() - i,
            {
                self.output.push(bytes[i]);
                proof {
                    assert(bytes@.subrange(0, i as int + 1) =~= bytes@.subrange(0, i as int).push(
                        bytes@[i as int],
                    ));
                }
                i = i + 1;
            }
            proof {
                assert(bytes@.subrange(0, i as int) =~= bytes@);
            }
            self.waiting = false;
            ReadAction::ReadAgain
        }
    }

    /// A read failed: collection ends with what was read so far.
    pub fn on_error(&mut self) -> (r: ReadAction)
        ensures
            r == ReadAction::Stop,
            final(self)@ == (if old(self)@.stopped {
                old(self)@
            } else {
                ReaderView { stopped: true, ..old(self)@ }
            }),
    {
        self.stopped = true;
        ReadAction::Stop
    }

    pub fn is_stopped(&self) -> (r: bool)
        ensures
            r == self@.stopped,
    {
        self.stopped
    }

    /// Whether the idle wait ran out before any output arrived.
    pub fn gave_up(&self) -> (r: bool)
        ensures
            r == self@.gave_up,
    {
        self.gave_up
    }

    pub fn output(&self) -> (r: &Vec<u8>)
        ensures
            r@ == self@.output,
    {
        &self.output
    }
}

/// The result text of a command: its standard output and its standard
/// error, separated by a line break.
pub fn command_output(stdout: &str, stderr: &str) -> (r: String)
    ensures
        r@ == stdout@ + seq!['\n'] + stderr@,
{
    let mut r = String::from_str(stdout);
    r.append("\n");
    r.append(stderr);
    proof {
        reveal_strlit("\n");
    }
    r
}

} // verus!
