//! Loggers for the commands that `dock` runs: what each logger records or
//! writes for each event of a command's run.

use vstd::prelude::*;
use vstd::utf8::encode_utf8;

verus! {

/// An output stream of a command.
#[derive(Debug, Clone, Copy, PartialEq, Eq)]
pub enum Stream {
    Stdout,
    Stderr,
}

/// An event of a command's run.
pub enum CmdLoggerMsg<'a> {
    /// The command line: the program followed by its arguments.
    Cmd(&'a [String]),
    Start,
    StdoutWrite(&'a [u8]),
    StderrWrite(&'a [u8]),
    Exit,
}

pub const SPACE: u8 = 0x20;

pub const NEWLINE: u8 = 0x0a;

pub open spec fn spec_is_newline(b: u8) -> bool {
    b == NEWLINE
}

/// Whether `b` is the newline byte.
pub fn is_newline(b: u8) -> (r: bool)
    ensures
        r == spec_is_newline(b),
{
    b == NEWLINE
}

/// Records what a command writes to its output streams, in order.
pub struct CapturingCmdLogger {
    pub chunks: Vec<(Stream, Vec<u8>)>,
}

/// The chunks of output, by their bytes.
pub open spec fn chunks_view(chunks: Seq<(Stream, Vec<u8>)>) -> Seq<(Stream, Seq<u8>)> {
    chunks.map_values(|c: (Stream, Vec<u8>)| (c.0, c.1@))
}

impl CapturingCmdLogger {
    /// Returns a logger that has recorded nothing.
    pub fn new() -> (l: Self)
        ensures
            l.chunks@.len() == 0,
    {
        CapturingCmdLogger { chunks: Vec::new() }
    }

    /// The chunks recorded once `msg` has been logged.
    pub open spec fn captured(&self, msg: CmdLoggerMsg) -> Seq<(Stream, Seq<u8>)> {
        match msg {
            CmdLoggerMsg::StdoutWrite(bs) => chunks_view(self.chunks@).push((Stream::Stdout, bs@)),
            CmdLoggerMsg::StderrWrite(bs) => chunks_view(self.chunks@).push((Stream::Stderr, bs@)),
            _ => chunks_view(self.chunks@),
        }
    }

    /// Records the output in `msg`, if it holds any.
    pub fn log(&mut self, msg: &CmdLoggerMsg)
        ensures
            chunks_view(final(self).chunks@) == old(self).captured(*msg),
            chunks_view(final(self).chunks@) == chunks_view(old(self).chunks@) + msg_chunks(*msg),
    {
        proof {
            assert(old(self).captured(*msg) =~= chunks_view(old(self).chunks@) + msg_chunks(*msg));
        }
        match msg {
            CmdLoggerMsg::StdoutWrite(bs) => {
                self.chunks.push((Stream::Stdout, vstd::slice::slice_to_vec(bs)));
                proof {
                    assert(chunks_view(self.chunks@) =~= chunks_view(old(self).chunks@).push(
                        (Stream::Stdout, bs@),
                    ));
                }
            },
            CmdLoggerMsg::StderrWrite(bs) => {
                self.chunks.push((Stream::Stderr, vstd::slice::slice_to_vec(bs)));
                proof {
                    assert(chunks_view(self.chunks@) =~= chunks_view(old(self).chunks@).push(
                        (Stream::Stderr, bs@),
                    ));
                }
            },
            _ => {},
        }
    }
}

/// The chunks of output that `msg` carries: one for a write to a stream,
/// none for any other event.
pub open spec fn msg_chunks(msg: CmdLoggerMsg) -> Seq<(Stream, Seq<u8>)> {
    match msg {
        CmdLoggerMsg::StdoutWrite(bs) => seq![(Stream::Stdout, bs@)],
        CmdLoggerMsg::StderrWrite(bs) => seq![(Stream::Stderr, bs@)],
        _ => Seq::empty(),
    }
}

/// The chunks of output that `msgs` carry, in order.
pub open spec fn output_chunks(msgs: Seq<CmdLoggerMsg>) -> Seq<(Stream, Seq<u8>)>
    decreases msgs.len(),
{
    if msgs.len() == 0 {
        Seq::empty()
    } else {
        output_chunks(msgs.drop_last()) + msg_chunks(msgs.last())
    }
}

/// The output of `msgs` followed by `msg` is that of `msgs`, then that of
/// `msg`.
pub proof fn lemma_output_chunks_push<'a>(msgs: Seq<CmdLoggerMsg<'a>>, msg: CmdLoggerMsg<'a>)
    ensures
        output_chunks(msgs.push(msg)) == output_chunks(msgs) + msg_chunks(msg),
{
    assert(msgs.push(msg).drop_last() =~= msgs);
}

/// Logging a sequence of events captures the output that they carry, in
/// order: where `states[i + 1]` is `states[i]` after logging `msgs[i]`, the
/// last state holds the chunks of the first followed by the writes among
/// `msgs`. From a new logger, it holds exactly those writes.
pub proof fn lemma_capture_sequence<'a>(
    states: Seq<CapturingCmdLogger>,
    msgs: Seq<CmdLoggerMsg<'a>>,
)
    requires
        states.len() == msgs.len() + 1,
        forall|i: int|
            0 <= i < msgs.len() ==> chunks_view(states[i + 1].chunks@) == states[i].captured(
                #[trigger] msgs[i],
            ),
    ensures
        chunks_view(states.last().chunks@) == chunks_view(states[0].chunks@) + output_chunks(msgs),
    decreases msgs.len(),
{
    if msgs.len() == 0 {
        assert(chunks_view(states[0].chunks@) + output_chunks(msgs) =~= chunks_view(
            states[0].chunks@,
        ));
    } else {
        let n = msgs.len() - 1;
        lemma_capture_sequence(states.drop_last(), msgs.drop_last());
        assert(states.drop_last().last() == states[n]);
        assert(chunks_view(states[n + 1].chunks@) == states[n].captured(msgs[n]));
        assert(states[n].captured(msgs[n]) =~= chunks_view(states[n].chunks@) + msg_chunks(
            msgs[n],
        ));
        assert(chunks_view(states.last().chunks@) =~= chunks_view(states[0].chunks@)
            + output_chunks(msgs));
    }
}

/// The bytes that prefixing `buf` produces: `prefix` goes before the first
/// byte if `due`, and before every byte that follows a newline.
pub open spec fn prefixed(prefix: Seq<u8>, buf: Seq<u8>, due: bool) -> Seq<u8>
    decreases buf.len(),
{
    if buf.len() == 0 {
        Seq::empty()
    } else {
        (if due {
            prefix
        } else {
            Seq::empty()
        }) + seq![buf[0]] + prefixed(prefix, buf.drop_first(), spec_is_newline(buf[0]))
    }
}

/// Whether a prefix is due after `buf` has been prefixed, starting with
/// `due`.
pub open spec fn due_after(buf: Seq<u8>, due: bool) -> bool {
    if buf.len() == 0 {
        due
    } else {
        spec_is_newline(buf.last())
    }
}

/// Prefixing `a + b` is prefixing `a`, then `b`.
pub proof fn lemma_prefixed_concat(prefix: Seq<u8>, a: Seq<u8>, b: Seq<u8>, due: bool)
    ensures
        prefixed(prefix, a + b, due) == prefixed(prefix, a, due) + prefixed(
            prefix,
            b,
            due_after(a, due),
        ),
    decreases a.len(),
{
    if a.len() == 0 {
        assert(a + b =~= b);
        assert(prefixed(prefix, a, due) =~= Seq::<u8>::empty());
        assert(Seq::<u8>::empty() + prefixed(prefix, b, due) =~= prefixed(prefix, b, due));
    } else {
        let a1 = a.drop_first();
        assert((a + b).drop_first() =~= a1 + b);
        assert((a + b)[0] == a[0]);
        lemma_prefixed_concat(prefix, a1, b, spec_is_newline(a[0]));
        if a1.len() > 0 {
            assert(a1.last() == a.last());
        }
        let head = (if due {
            prefix
        } else {
            Seq::empty()
        }) + seq![a[0]];
        assert(head + (prefixed(prefix, a1, spec_is_newline(a[0])) + prefixed(
            prefix,
            b,
            due_after(a, due),
        )) =~= (head + prefixed(prefix, a1, spec_is_newline(a[0]))) + prefixed(
            prefix,
            b,
            due_after(a, due),
        ));
    }
}

/// The number of newlines in `buf`.
pub open spec fn newline_count(buf: Seq<u8>) -> nat
    decreases buf.len(),
{
    if buf.len() == 0 {
        0
    } else {
        (if spec_is_newline(buf[0]) {
            1nat
        } else {
            0nat
        }) + newline_count(buf.drop_first())
    }
}

/// The number of lines that start in `buf` when prefixing it starts with
/// `due`: the first byte's line if `due`, and the line after each newline
/// but the last byte.
pub open spec fn line_starts(buf: Seq<u8>, due: bool) -> nat {
    if buf.len() == 0 {
        0
    } else {
        (if due {
            1nat
        } else {
            0nat
        }) + newline_count(buf.drop_last())
    }
}

/// Prefixing adds the prefix once per line that starts in `buf`.
pub proof fn lemma_prefixed_len(prefix: Seq<u8>, buf: Seq<u8>, due: bool)
    ensures
        prefixed(prefix, buf, due).len() == buf.len() + prefix.len() * line_starts(buf, due),
    decreases buf.len(),
{
    if buf.len() > 0 {
        let b1 = buf.drop_first();
        let nl0 = spec_is_newline(buf[0]);
        lemma_prefixed_len(prefix, b1, nl0);
        let d: nat = if due {
            1nat
        } else {
            0nat
        };
        if b1.len() == 0 {
            assert(buf.drop_last() =~= Seq::<u8>::empty());
            assert(line_starts(buf, due) == d);
        } else {
            assert(buf.drop_last().drop_first() =~= b1.drop_last());
            assert(buf.drop_last()[0] == buf[0]);
            assert(newline_count(buf.drop_last()) == (if nl0 {
                1nat
            } else {
                0nat
            }) + newline_count(b1.drop_last()));
            assert(line_starts(buf, due) == d + line_starts(b1, nl0));
        }
        let k = line_starts(b1, nl0);
        assert(line_starts(buf, due) == d + k);
        assert(prefix.len() * (d + k) == prefix.len() * d + prefix.len() * k) by (nonlinear_arith);
        assert(prefix.len() * d == if due {
            prefix.len() as int
        } else {
            0
        }) by (nonlinear_arith)
            requires
                d == (if due {
                    1nat
                } else {
                    0nat
                }),
        ;
    }
}

/// Prefixes each line of a stream of output, across chunks of the stream.
pub struct Prefixer<'a> {
    prefix: &'a [u8],
    due_prefix: bool,
}

impl<'a> Prefixer<'a> {
    /// The prefix put before each line.
    pub closed spec fn prefix_bytes(&self) -> Seq<u8> {
        self.prefix@
    }

    /// Whether the next byte starts a line.
    pub closed spec fn is_due(&self) -> bool {
        self.due_prefix
    }

    /// The prefixer once `buf` has been prefixed.
    pub closed spec fn after(&self, buf: Seq<u8>) -> Prefixer<'a> {
        Prefixer { prefix: self.prefix, due_prefix: due_after(buf, self.due_prefix) }
    }

    /// Returns a prefixer for a stream that hasn't started.
    pub fn new(prefix: &'a [u8]) -> (p: Self)
        ensures
            p.prefix_bytes() == prefix@,
            p.is_due(),
    {
        Prefixer { prefix, due_prefix: true }
    }

    /// Returns `buf` with the prefix before each line that starts in it; a
    /// line starts at the start of the stream and after each newline.
    pub fn prefix(&mut self, buf: &[u8]) -> (out: Vec<u8>)
        ensures
            out@ == prefixed(old(self).prefix_bytes(), buf@, old(self).is_due()),
            *final(self) == old(self).after(buf@),
            final(self).prefix_bytes() == old(self).prefix_bytes(),
            final(self).is_due() == due_after(buf@, old(self).is_due()),
            out@.len() == buf@.len() + old(self).prefix_bytes().len() * line_starts(
                buf@,
                old(self).is_due(),
            ),
    {
        proof {
            lemma_prefixed_len(self.prefix@, buf@, self.due_prefix);
        }
        if buf.len() == 0 {
            return Vec::new();
        }
        let ghost p = self.prefix@;
        let ghost due0 = self.due_prefix;
        let mut prefixed_buf: Vec<u8> = Vec::new();
        let mut i: usize = 0;
        while i < buf.len()
            invariant
                i <= buf@.len(),
                p == self.prefix@,
                self.due_prefix == due0,
                prefixed_buf@ == prefixed(p, buf@.take(i as int), due0),
            decreases buf@.len() - i,
        {
            let starts_line = if i == 0 {
                self.due_prefix
            } else {
                is_newline(buf[i - 1])
            };
            if starts_line {
                let mut j: usize = 0;
                while j < self.prefix.len()
                    invariant
                        j <= p.len(),
                        p == self.prefix@,
                        prefixed_buf@ == prefixed(p, buf@.take(i as int), due0) + p.take(j as int),
                    decreases p.len() - j,
                {
                    prefixed_buf.push(self.prefix[j]);
                    proof {
                        assert(p.take(j + 1) =~= p.take(j as int).push(p[j as int]));
                    }
                    j += 1;
                }
                proof {
                    assert(p.take(j as int) =~= p);
                }
            }
            prefixed_buf.push(buf[i]);
            proof {
                let a = buf@.take(i as int);
                let b = seq![buf@[i as int]];
                assert(buf@.take(i + 1) =~= a + b);
                lemma_prefixed_concat(p, a, b, due0);
                if i > 0 {
                    assert(a.last() == buf@[i - 1]);
                }
                let d = due_after(a, due0);
                assert(b.drop_first() =~= Seq::<u8>::empty());
                assert(prefixed(p, b, d) == (if d {
                    p
                } else {
                    Seq::empty()
                }) + seq![buf@[i as int]] + prefixed(p, b.drop_first(), spec_is_newline(b[0])));
                if starts_line {
                    assert(prefixed_buf@ =~= prefixed(p, a, due0) + prefixed(p, b, d));
                } else {
                    assert(prefixed_buf@ =~= prefixed(p, a, due0) + prefixed(p, b, d));
                }
            }
            i += 1;
        }
        proof {
            assert(buf@.take(i as int) =~= buf@);
        }
        self.due_prefix = is_newline(buf[buf.len() - 1]);
        prefixed_buf
    }
}

/// The bytes that log a command line: the prefix, then each part of the
/// command followed by a space, then a newline.
pub open spec fn cmd_line_bytes(cmd_prefix: Seq<u8>, cmd_line: Seq<String>) -> Seq<u8>
    decreases cmd_line.len(),
{
    if cmd_line.len() == 0 {
        cmd_prefix + seq![NEWLINE]
    } else {
        cmd_line_bytes(cmd_prefix, cmd_line.drop_last()).drop_last() + encode_utf8(
            cmd_line.last()@,
        ) + seq![SPACE, NEWLINE]
    }
}

/// Renders the events of a command's run as prefixed lines: the command
/// line, then the command's output streams.
pub struct PrefixingCmdLogger<'a> {
    cmd_prefix: &'a [u8],
    stdout_prefixer: Prefixer<'a>,
    stderr_prefixer: Prefixer<'a>,
}

impl<'a> PrefixingCmdLogger<'a> {
    pub closed spec fn cmd_prefix_bytes(&self) -> Seq<u8> {
        self.cmd_prefix@
    }

    pub closed spec fn stdout_prefixer(&self) -> Prefixer<'a> {
        self.stdout_prefixer
    }

    pub closed spec fn stderr_prefixer(&self) -> Prefixer<'a> {
        self.stderr_prefixer
    }

    /// Returns a logger that prefixes command lines with `cmd_prefix`, and
    /// output with the given prefixers.
    pub fn new(
        cmd_prefix: &'a [u8],
        stdout_prefixer: Prefixer<'a>,
        stderr_prefixer: Prefixer<'a>,
    ) -> (l: Self)
        ensures
            l.cmd_prefix_bytes() == cmd_prefix@,
            l.stdout_prefixer() == stdout_prefixer,
            l.stderr_prefixer() == stderr_prefixer,
    {
        PrefixingCmdLogger { cmd_prefix, stdout_prefixer, stderr_prefixer }
    }

    /// The bytes that log `msg`.
    pub open spec fn rendered(&self, msg: CmdLoggerMsg) -> Seq<u8> {
        match msg {
            CmdLoggerMsg::Cmd(cmd_line) => cmd_line_bytes(self.cmd_prefix_bytes(), cmd_line@),
            CmdLoggerMsg::StdoutWrite(bs) => prefixed(
                self.stdout_prefixer().prefix_bytes(),
                bs@,
                self.stdout_prefixer().is_due(),
            ),
            CmdLoggerMsg::StderrWrite(bs) => prefixed(
                self.stderr_prefixer().prefix_bytes(),
                bs@,
                self.stderr_prefixer().is_due(),
            ),
            _ => Seq::empty(),
        }
    }

    /// The logger once `msg` has been logged.
    pub closed spec fn after(&self, msg: CmdLoggerMsg) -> PrefixingCmdLogger<'a> {
        match msg {
            CmdLoggerMsg::StdoutWrite(bs) => PrefixingCmdLogger {
                stdout_prefixer: self.stdout_prefixer.after(bs@),
                ..*self
            },
            CmdLoggerMsg::StderrWrite(bs) => PrefixingCmdLogger {
                stderr_prefixer: self.stderr_prefixer.after(bs@),
                ..*self
            },
            _ => *self,
        }
    }

    /// Returns the bytes that log `msg`.
    pub fn render(&mut self, msg: &CmdLoggerMsg) -> (out: Vec<u8>)
        ensures
            out@ == old(self).rendered(*msg),
            *final(self) == old(self).after(*msg),
    {
        match msg {
            CmdLoggerMsg::Cmd(cmd_line) => {
                let mut out: Vec<u8> = vstd::slice::slice_to_vec(self.cmd_prefix);
                let mut i: usize = 0;
                proof {
                    assert(cmd_line@.take(0) =~= Seq::<String>::empty());
                }
                while i < cmd_line.len()
                    invariant
                        i <= cmd_line@.len(),
                        out@.push(NEWLINE) == cmd_line_bytes(
                            self.cmd_prefix@,
                            cmd_line@.take(i as int),
                        ),
                    decreases cmd_line@.len() - i,
                {
                    let bs = cmd_line[i].as_str().as_bytes();
                    let mut j: usize = 0;
                    let ghost out0 = out@;
                    while j < bs.len()
                        invariant
                            j <= bs@.len(),
                            out@ == out0 + bs@.take(j as int),
                        decreases bs@.len() - j,
                    {
                        out.push(bs[j]);
                        proof {
                            assert(bs@.take(j + 1) =~= bs@.take(j as int).push(bs@[j as int]));
                        }
                        j += 1;
                    }
                    out.push(SPACE);
                    proof {
                        let t = cmd_line@.take(i + 1);
                        assert(t.drop_last() =~= cmd_line@.take(i as int));
                        assert(bs@.take(j as int) =~= bs@);
                        assert(out0.push(NEWLINE).drop_last() =~= out0);
                        assert(out@.push(NEWLINE) =~= cmd_line_bytes(self.cmd_prefix@, t));
                    }
                    i += 1;
                }
                out.push(NEWLINE);
                proof {
                    assert(cmd_line@.take(i as int) =~= cmd_line@);
                }
                out
            },
            CmdLoggerMsg::StdoutWrite(bs) => self.stdout_prefixer.prefix(bs),
            CmdLoggerMsg::StderrWrite(bs) => self.stderr_prefixer.prefix(bs),
            _ => Vec::new(),
        }
    }
}

/// Renders the events of a command's run as `PrefixingCmdLogger` does, and
/// logs how long the command ran for when it exits.
pub struct TimingPrefixingCmdLogger<'a> {
    logger: PrefixingCmdLogger<'a>,
    duration_prefix: &'a [u8],
    started: bool,
}

impl<'a> TimingPrefixingCmdLogger<'a> {
    pub closed spec fn logger(&self) -> PrefixingCmdLogger<'a> {
        self.logger
    }

    pub closed spec fn duration_prefix_bytes(&self) -> Seq<u8> {
        self.duration_prefix@
    }

    /// Whether the command has started.
    pub closed spec fn spec_started(&self) -> bool {
        self.started
    }

    /// Returns a logger that renders events with `logger`, and durations
    /// after `duration_prefix`.
    pub fn new(logger: PrefixingCmdLogger<'a>, duration_prefix: &'a [u8]) -> (l: Self)
        ensures
            l.logger() == logger,
            l.duration_prefix_bytes() == duration_prefix@,
            !l.spec_started(),
    {
        TimingPrefixingCmdLogger { logger, duration_prefix, started: false }
    }

    /// Whether the command has started.
    pub fn started(&self) -> (r: bool)
        ensures
            r == self.spec_started(),
    {
        self.started
    }

    /// The bytes that log `msg`, where `elapsed` is the rendering of the
    /// time since the command started.
    pub open spec fn rendered(&self, msg: CmdLoggerMsg, elapsed: Seq<u8>) -> Seq<u8> {
        (if msg is Exit {
            self.duration_prefix_bytes() + elapsed + seq![NEWLINE]
        } else {
            Seq::empty()
        }) + self.logger().rendered(msg)
    }

    /// Returns the bytes that log `msg`, where `elapsed` is the rendering of
    /// the time since the command started. On exit, the duration is logged
    /// first.
    pub fn render(&mut self, msg: &CmdLoggerMsg, elapsed: &[u8]) -> (out: Vec<u8>)
        requires
            msg is Exit ==> old(self).spec_started(),
        ensures
            out@ == old(self).rendered(*msg, elapsed@),
            final(self).logger() == old(self).logger().after(*msg),
            final(self).spec_started() == (old(self).spec_started() || *msg is Start),
            final(self).duration_prefix_bytes() == old(self).duration_prefix_bytes(),
    {
        let mut out: Vec<u8> = Vec::new();
        match msg {
            CmdLoggerMsg::Start => {
                self.started = true;
            },
            CmdLoggerMsg::Exit => {
                out = vstd::slice::slice_to_vec(self.duration_prefix);
                let mut j: usize = 0;
                while j < elapsed.len()
                    invariant
                        j <= elapsed@.len(),
                        out@ == self.duration_prefix@ + elapsed@.take(j as int),
                    decreases elapsed@.len() - j,
                {
                    out.push(elapsed[j]);
                    proof {
                        assert(elapsed@.take(j + 1) =~= elapsed@.take(j as int).push(
                            elapsed@[j as int],
                        ));
                    }
                    j += 1;
                }
                out.push(NEWLINE);
            },
            _ => {},
        }
        let ghost head = out@;
        let mut inner = self.logger.render(msg);
        out.append(&mut inner);
        proof {
            if *msg is Exit {
                assert(elapsed@.take(elapsed@.len() as int) =~= elapsed@);
            } else {
                assert(head =~= Seq::<u8>::empty());
            }
        }
        out
    }
}

} // verus!
