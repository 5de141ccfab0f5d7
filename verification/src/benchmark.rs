//! One benchmark's record and its reconciler: the state machine that turns
//! the child compiler's marker lines into timed phases and an artifact size.
//!
//! All times are nanoseconds elapsed since the program's epoch instant, read
//! from a monotonic clock by the caller and passed in as plain values.

use vstd::prelude::*;

use crate::TimeNs;
use crate::frame::BenchmarkFrame;
use crate::frame::frames_ordered;
use crate::marker::Marker;
use crate::marker::ProtocolError;
use crate::marker::digits_val;
use crate::marker::is_size_line;
use crate::marker::is_start_line;
use crate::marker::is_stop_line;
use crate::marker::parse_marker;
use crate::marker::size_payload;
use crate::marker::size_payload_ok;
use crate::marker::start_payload;
use crate::marker::stop_payload;

verus! {

/// A named sub-interval of a benchmark, delimited by a start marker and, if
/// one arrived, a matching stop marker.
#[derive(Debug, Clone, PartialEq)]
pub struct BenchmarkPhase {
    /// The phase label as reported by the child.
    pub name: String,
    /// When the start marker arrived; set once, when the phase is created.
    pub start_time: Option<TimeNs>,
    /// When the matching stop marker arrived, if it ever did.
    pub end_time: Option<TimeNs>,
}

impl BenchmarkPhase {
    /// A phase is created with its start time and never loses it; an end
    /// time, once set, does not precede the start.
    pub open spec fn wf(self) -> bool {
        &&& self.start_time is Some
        &&& (self.end_time is Some ==> self.start_time.unwrap() <= self.end_time.unwrap())
    }

    /// No stop marker has matched this phase yet.
    pub open spec fn is_open(self) -> bool {
        self.end_time is None
    }

    /// Both recorded times, where present, are at most `t`.
    pub open spec fn times_le(self, t: TimeNs) -> bool {
        &&& (self.start_time is Some ==> self.start_time.unwrap() <= t)
        &&& (self.end_time is Some ==> self.end_time.unwrap() <= t)
    }
}

/// What a phase list looks like with the clock abstracted away: each phase's
/// name and whether it has been closed.
pub open spec fn phase_shape(p: BenchmarkPhase) -> (Seq<char>, bool) {
    (p.name@, !p.is_open())
}

/// `k` indexes a still-open phase of the given name.
pub open spec fn open_named(ps: Seq<(Seq<char>, bool)>, name: Seq<char>, k: int) -> bool {
    0 <= k < ps.len() && !ps[k].1 && ps[k].0 == name
}

/// The index of the newest still-open phase of the given name, or -1 when
/// every phase of that name is closed or absent.
pub open spec fn find_open_rev(ps: Seq<(Seq<char>, bool)>, name: Seq<char>) -> int
    decreases ps.len(),
{
    if ps.len() == 0 {
        -1
    } else if !ps.last().1 && ps.last().0 == name {
        ps.len() - 1
    } else {
        find_open_rev(ps.drop_last(), name)
    }
}

/// What [`find_open_rev`] returns: an open phase of the name with none newer,
/// or -1 when there is no open phase of the name at all.
pub proof fn lemma_find_open_rev(ps: Seq<(Seq<char>, bool)>, name: Seq<char>)
    ensures
        ({
            let j = find_open_rev(ps, name);
            &&& -1 <= j < ps.len()
            &&& (j >= 0 ==> open_named(ps, name, j))
            &&& (forall|k: int| j < k < ps.len() ==> !open_named(ps, name, k))
        }),
    decreases ps.len(),
{
    if ps.len() > 0 && !(!ps.last().1 && ps.last().0 == name) {
        lemma_find_open_rev(ps.drop_last(), name);
        let j = find_open_rev(ps, name);
        assert(j == find_open_rev(ps.drop_last(), name));
        assert(ps.drop_last().len() == ps.len() - 1);
        if j >= 0 {
            assert(ps.drop_last()[j] == ps[j]);
            assert(open_named(ps, name, j));
        }
        assert forall|k: int| j < k < ps.len() implies !open_named(ps, name, k) by {
            if k < ps.len() - 1 {
                assert(ps.drop_last()[k] == ps[k]);
                assert(!open_named(ps.drop_last(), name, k));
            } else {
                assert(ps[k] == ps.last());
            }
        }
    }
}

/// One benchmark's record: metadata, its overall span, the compiled
/// artifact's size, the timed phases, and the sampled resource frames.
#[derive(Debug, Clone)]
pub struct Benchmark {
    /// The benchmark's label, the terminal name of its project directory.
    pub name: String,
    /// The canonical path of the project directory the child runs in.
    pub path: String,
    /// When the benchmark began; set once, before the child is spawned.
    pub start_time: Option<TimeNs>,
    /// When the benchmark finished; set once, after the child exited.
    pub end_time: Option<TimeNs>,
    /// The compiled artifact's size in bytes, from the last size marker.
    pub bytecode_size: Option<usize>,
    /// The phases, in the order their start markers arrived.
    pub phases: Vec<BenchmarkPhase>,
    /// The resource frames the sampler collected, in sample order.
    pub frames: Vec<BenchmarkFrame>,
}

impl Benchmark {
    /// Every phase carries its start time, and a closed phase closed after
    /// it started.
    pub open spec fn phases_wf(self) -> bool {
        forall|i: int| 0 <= i < self.phases@.len() ==> (#[trigger] self.phases@[i]).wf()
    }

    /// Phase start times never decrease in insertion order.
    pub open spec fn phases_ordered(self) -> bool {
        forall|i: int, j: int|
            #![trigger self.phases@[i], self.phases@[j]]
            0 <= i < j < self.phases@.len() ==> self.phases@[i].start_time.unwrap()
                <= self.phases@[j].start_time.unwrap()
    }

    /// No phase starts before the benchmark itself did.
    pub open spec fn phases_after_start(self) -> bool {
        self.start_time is Some ==> forall|i: int|
            0 <= i < self.phases@.len() ==> self.start_time.unwrap() <= (
            #[trigger] self.phases@[i]).start_time.unwrap()
    }

    /// No frame was sampled before the benchmark started.
    pub open spec fn frames_after_start(self) -> bool {
        self.start_time is Some ==> forall|i: int|
            0 <= i < self.frames@.len() ==> self.start_time.unwrap() <= (
            #[trigger] self.frames@[i]).timestamp
    }

    /// The benchmark's standing invariant, established at creation and
    /// preserved by every reconciler and sampler step.
    pub open spec fn wf(self) -> bool {
        &&& self.phases_wf()
        &&& self.phases_ordered()
        &&& self.phases_after_start()
        &&& frames_ordered(self.frames@)
        &&& self.frames_after_start()
        &&& (self.start_time is Some && self.end_time is Some ==> self.start_time.unwrap()
            <= self.end_time.unwrap())
    }

    /// Every time this record holds is at most `t`; with a monotonic clock
    /// this holds of each fresh reading.
    pub open spec fn times_le(self, t: TimeNs) -> bool {
        &&& (self.start_time is Some ==> self.start_time.unwrap() <= t)
        &&& (self.end_time is Some ==> self.end_time.unwrap() <= t)
        &&& (forall|i: int| 0 <= i < self.phases@.len() ==> (#[trigger] self.phases@[i]).times_le(
            t,
        ))
        &&& (forall|i: int| 0 <= i < self.frames@.len() ==> (#[trigger] self.frames@[i]).timestamp
            <= t)
    }

    /// A finalized record: well formed, spanned by its own start and end,
    /// with every phase and frame inside that span.
    pub open spec fn finished(self) -> bool {
        &&& self.wf()
        &&& self.start_time is Some
        &&& self.end_time is Some
        &&& self.times_le(self.end_time.unwrap())
    }

    /// The record with the clock abstracted away: phase names with their
    /// open/closed state, and the artifact size.
    pub open spec fn shape(self) -> (Seq<(Seq<char>, bool)>, Option<usize>) {
        (self.phases@.map_values(|p: BenchmarkPhase| phase_shape(p)), self.bytecode_size)
    }
}

/// How one line of child output changes a record's shape: start appends an
/// open phase, stop closes the newest open phase of its name or is a fatal
/// protocol violation, a valid size line sets the size, noise changes
/// nothing. The clock plays no part: re-running the same lines from the same
/// shape yields the same shape, whatever times are observed.
pub open spec fn spec_step_shape(
    st: (Seq<(Seq<char>, bool)>, Option<usize>),
    line: Seq<char>,
) -> Result<(Seq<(Seq<char>, bool)>, Option<usize>), ProtocolError> {
    if is_start_line(line) {
        Ok((st.0.push((start_payload(line), false)), st.1))
    } else if is_stop_line(line) {
        let j = find_open_rev(st.0, stop_payload(line));
        if j >= 0 {
            Ok((st.0.update(j, (stop_payload(line), true)), st.1))
        } else {
            Err(ProtocolError::UnmatchedStop)
        }
    } else if is_size_line(line) {
        if size_payload_ok(line) {
            Ok((st.0, Some(digits_val(size_payload(line)) as usize)))
        } else {
            Err(ProtocolError::InvalidSize)
        }
    } else {
        Ok(st)
    }
}

/// How one line changes the times a record holds, given the reading `now` at
/// which the line was handled: a new phase starts at `now`, a closed phase
/// ends at `now` with everything else untouched.
pub open spec fn spec_step_times(
    b0: Benchmark,
    b1: Benchmark,
    line: Seq<char>,
    now: TimeNs,
) -> bool {
    if is_start_line(line) {
        &&& b1.phases@.len() == b0.phases@.len() + 1
        &&& b1.phases@.take(b0.phases@.len() as int) == b0.phases@
        &&& b1.phases@.last().start_time == Some(now)
        &&& b1.phases@.last().end_time is None
        &&& b1.bytecode_size == b0.bytecode_size
    } else if is_stop_line(line) {
        let j = find_open_rev(b0.shape().0, stop_payload(line));
        &&& 0 <= j < b0.phases@.len()
        &&& b1.phases@.len() == b0.phases@.len()
        &&& (forall|k: int|
            0 <= k < b0.phases@.len() && k != j ==> #[trigger] b1.phases@[k] == b0.phases@[k])
        &&& b1.phases@[j].name == b0.phases@[j].name
        &&& b1.phases@[j].start_time == b0.phases@[j].start_time
        &&& b1.phases@[j].end_time == Some(now)
        &&& b1.bytecode_size == b0.bytecode_size
    } else if is_size_line(line) {
        &&& b1.phases == b0.phases
        &&& b1.bytecode_size == Some(digits_val(size_payload(line)) as usize)
    } else {
        b1 == b0
    }
}

/// What the reconciler's polling loop sees in one round.
#[derive(Debug, Clone, PartialEq)]
pub enum ReconcilerEvent {
    /// The non-blocking exit poll found the child gone.
    ChildExited,
    /// The line reader delivered one line of child output.
    Line(String),
    /// Nothing was ready; the loop polls again.
    NoLine,
}

/// What the reconciler's polling loop does next.
#[derive(Debug, Clone, Copy, PartialEq, Eq, Structural)]
pub enum ReconcilerAction {
    /// Signal both workers to stop and leave the loop.
    SignalStop,
    /// Keep polling.
    Continue,
}

impl Benchmark {
    /// A fresh record for a discovered project: names only, nothing run yet.
    pub fn new(name: String, path: String) -> (r: Benchmark)
        ensures
            r.name == name,
            r.path == path,
            r.start_time is None,
            r.end_time is None,
            r.bytecode_size is None,
            r.phases@ =~= Seq::<BenchmarkPhase>::empty(),
            r.frames@ =~= Seq::<BenchmarkFrame>::empty(),
            r.wf(),
    {
        Benchmark {
            name,
            path,
            start_time: None,
            end_time: None,
            bytecode_size: None,
            phases: Vec::new(),
            frames: Vec::new(),
        }
    }

    /// Marks the benchmark as begun, just before the child is spawned.
    pub fn start(&mut self, now: TimeNs)
        requires
            old(self).start_time is None,
            old(self).end_time is None,
            old(self).phases@.len() == 0,
            old(self).frames@.len() == 0,
        ensures
            final(self).start_time == Some(now),
            final(self).name == old(self).name,
            final(self).path == old(self).path,
            final(self).end_time == old(self).end_time,
            final(self).bytecode_size == old(self).bytecode_size,
            final(self).phases == old(self).phases,
            final(self).frames == old(self).frames,
            final(self).wf(),
            final(self).times_le(now),
    {
        self.start_time = Some(now);
    }

    /// Handles one line of child output at clock reading `now`.
    ///
    /// The record's shape changes exactly as [`spec_step_shape`] says, and
    /// the times exactly as [`spec_step_times`] says; a protocol violation
    /// leaves the record untouched and is returned to be treated as fatal.
    /// Success is owed precisely when the line is no stop marker without an
    /// open phase of its name, and no size marker with a bad payload.
    pub fn handle_line(&mut self, line: &str, now: TimeNs) -> (r: Result<(), ProtocolError>)
        requires
            old(self).wf(),
            old(self).times_le(now),
        ensures
            final(self).wf(),
            final(self).times_le(now),
            final(self).name == old(self).name,
            final(self).path == old(self).path,
            final(self).start_time == old(self).start_time,
            final(self).end_time == old(self).end_time,
            final(self).frames == old(self).frames,
            (match spec_step_shape(old(self).shape(), line@) {
                Ok(st) => r is Ok && final(self).shape() == st,
                Err(e) => r == Err::<(), ProtocolError>(e) && *final(self) == *old(self),
            }),
            r is Ok ==> spec_step_times(*old(self), *final(self), line@, now),
    {
        let ghost st0 = self.shape();
        match parse_marker(line) {
            Ok(Marker::Start(name)) => {
                let phase = BenchmarkPhase { name, start_time: Some(now), end_time: None };
                self.phases.push(phase);
                proof {
                    assert(self.shape().0 =~= st0.0.push((start_payload(line@), false)));
                    assert(self.phases@.take(old(self).phases@.len() as int) =~= old(
                        self,
                    ).phases@);
                }
                Ok(())
            },
            Ok(Marker::Stop(name)) => {
                let ghost target = stop_payload(line@);
                let mut i: usize = self.phases.len();
                while i > 0
                    invariant
                        0 <= i <= self.phases@.len(),
                        *self == *old(self),
                        old(self).wf(),
                        old(self).times_le(now),
                        name@ == target,
                        target == stop_payload(line@),
                        !is_start_line(line@),
                        is_stop_line(line@),
                        st0 == old(self).shape(),
                        forall|k: int|
                            i <= k < self.phases@.len() ==> !open_named(st0.0, target, k),
                    decreases i,
                {
                    i = i - 1;
                    let p = &self.phases[i];
                    proof {
                        assert(st0.0[i as int] == phase_shape(self.phases@[i as int]));
                    }
                    if p.end_time.is_none() && p.name == name {
                        let start_t = p.start_time;
                        let nm = p.name.clone();
                        proof {
                            assert(open_named(st0.0, target, i as int));
                            lemma_find_open_rev(st0.0, target);
                            assert(find_open_rev(st0.0, target) == i as int);
                        }
                        self.phases.set(
                            i,
                            BenchmarkPhase { name: nm, start_time: start_t, end_time: Some(now) },
                        );
                        proof {
                            assert(self.shape().0 =~= st0.0.update(i as int, (target, true)));
                            assert forall|k: int|
                                0 <= k < self.phases@.len() && k != i as int implies self.phases@[k]
                                == old(self).phases@[k] by {}
                            assert(self.phases@[i as int].name == old(self).phases@[i as int].name);
                            assert(self.phases@[i as int].start_time == old(self).phases@[i
                                as int].start_time);
                            assert forall|k: int|
                                0 <= k < self.phases@.len() implies (
                            #[trigger] self.phases@[k]).wf() && self.phases@[k].times_le(now)
                                && self.phases@[k].start_time == old(self).phases@[k].start_time by {
                                assert(old(self).phases@[k].wf());
                                assert(old(self).phases@[k].times_le(now));
                            }
                        }
                        return Ok(());
                    }
                    proof {
                        assert(!open_named(st0.0, target, i as int));
                    }
                }
                proof {
                    lemma_find_open_rev(st0.0, target);
                    assert(find_open_rev(st0.0, target) == -1);
                }
                Err(ProtocolError::UnmatchedStop)
            },
            Ok(Marker::Size(v)) => {
                self.bytecode_size = Some(v);
                proof {
                    assert(self.shape().0 =~= st0.0);
                }
                Ok(())
            },
            Ok(Marker::Other) => {
                proof {
                    assert(self.shape().0 =~= st0.0);
                }
                Ok(())
            },
            Err(e) => Err(e),
        }
    }

    /// One decision of the reconciler's polling loop at clock reading `now`:
    /// a child that exited has both workers signalled to stop and the loop
    /// left; an idle poll continues; a received line is handled exactly as
    /// [`Benchmark::handle_line`] says, a protocol violation being fatal.
    pub fn reconcile_step(&mut self, event: &ReconcilerEvent, now: TimeNs) -> (r: Result<
        ReconcilerAction,
        ProtocolError,
    >)
        requires
            old(self).wf(),
            old(self).times_le(now),
        ensures
            final(self).wf(),
            final(self).times_le(now),
            final(self).name == old(self).name,
            final(self).path == old(self).path,
            final(self).start_time == old(self).start_time,
            final(self).end_time == old(self).end_time,
            final(self).frames == old(self).frames,
            (match event {
                ReconcilerEvent::ChildExited => r == Ok::<_, ProtocolError>(
                    ReconcilerAction::SignalStop,
                ) && *final(self) == *old(self),
                ReconcilerEvent::NoLine => r == Ok::<_, ProtocolError>(ReconcilerAction::Continue)
                    && *final(self) == *old(self),
                ReconcilerEvent::Line(l) => match spec_step_shape(old(self).shape(), l@) {
                    Ok(st) => r == Ok::<_, ProtocolError>(ReconcilerAction::Continue)
                        && final(self).shape() == st
                        && spec_step_times(*old(self), *final(self), l@, now),
                    Err(e) => r == Err::<ReconcilerAction, _>(e) && *final(self) == *old(self),
                },
            }),
    {
        match event {
            ReconcilerEvent::ChildExited => Ok(ReconcilerAction::SignalStop),
            ReconcilerEvent::NoLine => Ok(ReconcilerAction::Continue),
            ReconcilerEvent::Line(l) => match self.handle_line(l.as_str(), now) {
                Ok(()) => Ok(ReconcilerAction::Continue),
                Err(e) => Err(e),
            },
        }
    }

    /// Hands the sampler's collected frames to the record once the sampler
    /// has been observed to exit; callable once, before finalization.
    pub fn attach_frames(&mut self, frames: Vec<BenchmarkFrame>)
        requires
            old(self).wf(),
            old(self).frames@.len() == 0,
            frames_ordered(frames@),
            old(self).start_time is Some ==> forall|i: int|
                0 <= i < frames@.len() ==> old(self).start_time.unwrap() <= (
                #[trigger] frames@[i]).timestamp,
        ensures
            final(self).frames == frames,
            final(self).name == old(self).name,
            final(self).path == old(self).path,
            final(self).start_time == old(self).start_time,
            final(self).end_time == old(self).end_time,
            final(self).bytecode_size == old(self).bytecode_size,
            final(self).phases == old(self).phases,
            final(self).wf(),
            forall|t: TimeNs|
                old(self).times_le(t) && (forall|i: int|
                    0 <= i < frames@.len() ==> (#[trigger] frames@[i]).timestamp <= t)
                    ==> #[trigger] final(self).times_le(t),
    {
        self.frames = frames;
    }

    /// Marks the benchmark as finished at clock reading `now`. Phases still
    /// open keep their unset end time; the record is complete thereafter.
    pub fn finalize(&mut self, now: TimeNs)
        requires
            old(self).wf(),
            old(self).times_le(now),
            old(self).start_time is Some,
        ensures
            final(self).end_time == Some(now),
            final(self).name == old(self).name,
            final(self).path == old(self).path,
            final(self).start_time == old(self).start_time,
            final(self).bytecode_size == old(self).bytecode_size,
            final(self).phases == old(self).phases,
            final(self).frames == old(self).frames,
            final(self).finished(),
    {
        self.end_time = Some(now);
    }
}

/// Every phase of a finalized benchmark lies within the benchmark's own
/// span: the benchmark starts no later than any phase, and ends no earlier
/// than any phase time.
pub proof fn lemma_phase_within_span(b: Benchmark, i: int)
    requires
        b.finished(),
        0 <= i < b.phases@.len(),
    ensures
        b.start_time.unwrap() <= b.phases@[i].start_time.unwrap(),
        b.phases@[i].start_time.unwrap() <= b.end_time.unwrap(),
        b.phases@[i].end_time is Some ==> b.phases@[i].end_time.unwrap() <= b.end_time.unwrap(),
{
}

/// A phase that was closed ended no earlier than it started.
pub proof fn lemma_phase_span_nonnegative(b: Benchmark, i: int)
    requires
        b.wf(),
        0 <= i < b.phases@.len(),
        b.phases@[i].end_time is Some,
    ensures
        b.phases@[i].start_time.unwrap() <= b.phases@[i].end_time.unwrap(),
{
}

/// Phase insertion order is non-decreasing start-time order.
pub proof fn lemma_phases_sorted(b: Benchmark, i: int, j: int)
    requires
        b.wf(),
        0 <= i < j < b.phases@.len(),
    ensures
        b.phases@[i].start_time.unwrap() <= b.phases@[j].start_time.unwrap(),
{
}

/// A recorded artifact size is never negative: it is carried as an unsigned
/// byte count, parsed from decimal digits.
pub proof fn lemma_bytecode_size_nonnegative(b: Benchmark)
    ensures
        b.bytecode_size matches Some(s) ==> s >= 0,
{
}

/// One run's successive records, each reached from the one before it by
/// handling the matching line, with every step succeeding: what
/// [`Benchmark::handle_line`] ensures of its shape at each step.
pub open spec fn shape_trace_ok(bs: Seq<Benchmark>, lines: Seq<Seq<char>>) -> bool {
    &&& bs.len() == lines.len() + 1
    &&& forall|k: int|
        0 <= k < lines.len() ==> spec_step_shape((#[trigger] bs[k]).shape(), lines[k]) == Ok::<
            _,
            ProtocolError,
        >(bs[k + 1].shape())
}

proof fn lemma_rerun_prefix(bs: Seq<Benchmark>, cs: Seq<Benchmark>, lines: Seq<Seq<char>>, k: int)
    requires
        shape_trace_ok(bs, lines),
        shape_trace_ok(cs, lines),
        bs.first().shape() == cs.first().shape(),
        0 <= k < bs.len(),
    ensures
        bs[k].shape() == cs[k].shape(),
    decreases k,
{
    if k > 0 {
        lemma_rerun_prefix(bs, cs, lines, k - 1);
        assert(spec_step_shape(bs[k - 1].shape(), lines[k - 1]) == Ok::<_, ProtocolError>(
            bs[k].shape(),
        ));
        assert(spec_step_shape(cs[k - 1].shape(), lines[k - 1]) == Ok::<_, ProtocolError>(
            cs[k].shape(),
        ));
    }
}

/// Re-running against the same lines reproduces the same structure: two
/// successful runs over the same marker lines, begun from records of equal
/// shape, end in records of equal shape — the same phase names, the same
/// open and closed states, the same artifact size — whatever clock readings
/// either run observed.
pub proof fn lemma_rerun_same_shape(bs: Seq<Benchmark>, cs: Seq<Benchmark>, lines: Seq<Seq<char>>)
    requires
        shape_trace_ok(bs, lines),
        shape_trace_ok(cs, lines),
        bs.first().shape() == cs.first().shape(),
    ensures
        bs.last().shape() == cs.last().shape(),
{
    lemma_rerun_prefix(bs, cs, lines, bs.len() - 1);
}

} // verus!
