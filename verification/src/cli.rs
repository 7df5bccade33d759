//! The commands of the serial console and the figures that answer them.
use vstd::prelude::*;

use crate::analog;
use crate::analog::map_analog_channel;
use crate::bits;
use crate::bump::BumpAllocator;
use crate::expander::Panel;
use crate::lines::{Line, TransferError};
use crate::tasklist;
use crate::tasklist::{profiles, profiles_mut, sort_by_run_ticks};
use crate::ticks::ticks_between;
use crate::trace::{Profile, TaskProfile, MAX_TASKS};

verus! {

/// What a command asks for.
#[derive(Clone, Copy, Debug, PartialEq, Eq, Structural)]
pub enum CliCommand {
    /// `m`: how much memory is allocated.
    Memory,
    /// `p`: where the processor time goes.
    Profile,
    /// `i`: how long a round on the bus takes.
    I2c,
    /// `a`: the analog channels.
    Analog,
    /// `b`: the switch lines.
    Buttons,
    /// Anything else, which is not answered.
    Unknown,
}

/// The command that a byte stands for.
pub open spec fn command_of(byte: u8) -> CliCommand {
    if byte == 'm' as u8 {
        CliCommand::Memory
    } else if byte == 'p' as u8 {
        CliCommand::Profile
    } else if byte == 'i' as u8 {
        CliCommand::I2c
    } else if byte == 'a' as u8 {
        CliCommand::Analog
    } else if byte == 'b' as u8 {
        CliCommand::Buttons
    } else {
        CliCommand::Unknown
    }
}

/// A packet that came in: its number, its length, its first byte, and the command that this byte
/// stands for.
#[derive(Clone, Copy, Debug, PartialEq, Eq, Structural)]
pub struct CliPacket {
    pub number: i32,
    pub len: usize,
    pub first: u8,
    pub command: CliCommand,
}

/// What the console does about a read: the line that it logs, and the command that it then answers.
#[derive(Clone, Copy, Debug, PartialEq, Eq)]
pub struct CliReply {
    pub line: Option<Line>,
    pub command: CliCommand,
}

/// How many packets a run of reads brought. Empty packets and errors do not count.
pub open spec fn packets_in(reads: Seq<Result<Seq<u8>, TransferError>>) -> nat
    decreases reads.len(),
{
    if reads.len() == 0 {
        0
    } else {
        packets_in(reads.drop_last()) + if reads.last() matches Ok(bytes) && bytes.len() > 0 {
            1nat
        } else {
            0
        }
    }
}

/// The console, which numbers the packets that come in.
#[derive(Clone, Copy, Debug, PartialEq, Eq, Structural)]
pub struct Cli {
    pub count: i32,
}

impl Cli {
    /// What the console does about a read. A packet is noted under its number, an empty one is
    /// passed over, and an error is noted and nothing more.
    pub open spec fn reply_to(self, read: Result<Seq<u8>, TransferError>) -> CliReply {
        match read {
            Ok(bytes) => if bytes.len() == 0 {
                CliReply { line: None, command: CliCommand::Unknown }
            } else {
                CliReply {
                    line: Some(
                        Line::Packet {
                            number: self.count,
                            len: bytes.len() as usize,
                            first: bytes[0],
                        },
                    ),
                    command: command_of(bytes[0]),
                }
            },
            Err(error) => CliReply {
                line: Some(Line::ReadError { error }),
                command: CliCommand::Unknown,
            },
        }
    }

    /// The console after a read.
    pub open spec fn after(self, read: Result<Seq<u8>, TransferError>) -> Cli {
        if read matches Ok(bytes) && bytes.len() > 0 {
            Cli { count: (self.count + 1) as i32 }
        } else {
            self
        }
    }

    /// The console after a run of reads, oldest first.
    pub open spec fn after_all(self, reads: Seq<Result<Seq<u8>, TransferError>>) -> Cli
        decreases reads.len(),
    {
        if reads.len() == 0 {
            self
        } else {
            self.after_all(reads.drop_last()).after(reads.last())
        }
    }

    pub fn new() -> (cli: Cli)
        ensures
            cli.count == 0,
    {
        Cli { count: 0 }
    }

    /// Takes in the first `n` bytes of a packet. An empty packet is passed over.
    pub fn receive(&mut self, packet: &[u8], n: usize) -> (received: Option<CliPacket>)
        requires
            n <= packet@.len(),
            n > 0 ==> old(self).count < i32::MAX,
        ensures
            n == 0 ==> received is None && final(self).count == old(self).count,
            n > 0 ==> received == Some(
                CliPacket {
                    number: old(self).count,
                    len: n,
                    first: packet@[0],
                    command: command_of(packet@[0]),
                },
            ) && final(self).count == old(self).count + 1,
            received matches Some(taken) ==> {
                &&& taken.command is Memory <==> packet@[0] == 'm' as u8
                &&& taken.command is Profile <==> packet@[0] == 'p' as u8
                &&& taken.command is I2c <==> packet@[0] == 'i' as u8
                &&& taken.command is Analog <==> packet@[0] == 'a' as u8
                &&& taken.command is Buttons <==> packet@[0] == 'b' as u8
            },
    {
        if n == 0 {
            return None;
        }
        let first: u8 = packet[0];
        let number: i32 = self.count;
        self.count = self.count + 1;
        let command: CliCommand = match first {
            109 => CliCommand::Memory,
            112 => CliCommand::Profile,
            105 => CliCommand::I2c,
            97 => CliCommand::Analog,
            98 => CliCommand::Buttons,
            _ => CliCommand::Unknown,
        };
        Some(CliPacket { number, len: n, first, command })
    }
}

impl Cli {
    /// Takes in what a read brought: the number of bytes that it put into `packet`, or an error.
    pub fn handle(&mut self, packet: &[u8], read: Result<usize, TransferError>) -> (reply: CliReply)
        requires
            read matches Ok(n) ==> n <= packet@.len() && (n > 0 ==> old(self).count < i32::MAX),
        ensures
            ({
                let brought = match read {
                    Ok(n) => Ok(packet@.take(n as int)),
                    Err(error) => Err(error),
                };
                reply == old(self).reply_to(brought) && *final(self) == old(self).after(brought)
            }),
            match read {
                Ok(n) => if n == 0 {
                    &&& reply.line is None
                    &&& reply.command is Unknown
                    &&& final(self).count == old(self).count
                } else {
                    &&& reply.line == Some(
                        Line::Packet { number: old(self).count, len: n, first: packet@[0] },
                    )
                    &&& reply.command is Memory <==> packet@[0] == 'm' as u8
                    &&& reply.command is Profile <==> packet@[0] == 'p' as u8
                    &&& reply.command is I2c <==> packet@[0] == 'i' as u8
                    &&& reply.command is Analog <==> packet@[0] == 'a' as u8
                    &&& reply.command is Buttons <==> packet@[0] == 'b' as u8
                    &&& final(self).count == old(self).count + 1
                },
                Err(error) => {
                    &&& reply.line == Some(Line::ReadError { error })
                    &&& reply.command is Unknown
                    &&& final(self).count == old(self).count
                },
            },
    {
        match read {
            Ok(n) => match self.receive(packet, n) {
                Some(received) => CliReply {
                    line: Some(received.line()),
                    command: received.command,
                },
                None => CliReply { line: None, command: CliCommand::Unknown },
            },
            Err(error) => CliReply {
                line: Some(Line::ReadError { error }),
                command: CliCommand::Unknown,
            },
        }
    }
}

proof fn lemma_count_is_packets_in(reads: Seq<Result<Seq<u8>, TransferError>>)
    requires
        packets_in(reads) <= i32::MAX,
    ensures
        (Cli { count: 0 }).after_all(reads).count == packets_in(reads),
    decreases reads.len(),
{
    if reads.len() > 0 {
        lemma_count_is_packets_in(reads.drop_last());
    }
}

/// In any run of reads the packets are numbered from zero in the order in which they came. Empty
/// packets are passed over without a line and without a number. An error is noted and takes no
/// number either, and the run goes on. Only a packet that starts with one of the five command
/// letters is answered.
pub proof fn law_packets_are_numbered(reads: Seq<Result<Seq<u8>, TransferError>>, k: int)
    requires
        0 <= k < reads.len(),
        packets_in(reads.take(k)) <= i32::MAX,
    ensures
        ({
            let reply = (Cli { count: 0 }).after_all(reads.take(k)).reply_to(reads[k]);
            match reads[k] {
                Ok(bytes) => if bytes.len() == 0 {
                    reply.line is None && reply.command is Unknown
                } else {
                    &&& reply.line == Some(
                        Line::Packet {
                            number: packets_in(reads.take(k)) as i32,
                            len: bytes.len() as usize,
                            first: bytes[0],
                        },
                    )
                    &&& reply.command is Unknown <==> !is_command(bytes[0])
                    &&& reply.command is Memory <==> bytes[0] == 'm' as u8
                    &&& reply.command is Profile <==> bytes[0] == 'p' as u8
                    &&& reply.command is I2c <==> bytes[0] == 'i' as u8
                    &&& reply.command is Analog <==> bytes[0] == 'a' as u8
                    &&& reply.command is Buttons <==> bytes[0] == 'b' as u8
                },
                Err(error) => reply.line == Some(Line::ReadError { error })
                    && reply.command is Unknown,
            }
        }),
{
    lemma_count_is_packets_in(reads.take(k));
}

/// A packet is answered by its first letter, whatever follows it and however many packets came
/// before: `m`, `p`, `i`, `a` and `b` each ask for their own answer, and anything else for none.
/// The packet takes one number, and an empty packet or an error takes none.
pub proof fn law_first_letter_decides(cli: Cli, bytes: Seq<u8>, error: TransferError)
    requires
        bytes.len() > 0,
        cli.count < i32::MAX,
    ensures
        cli.reply_to(Ok(bytes)).command is Memory <==> bytes[0] == 'm' as u8,
        cli.reply_to(Ok(bytes)).command is Profile <==> bytes[0] == 'p' as u8,
        cli.reply_to(Ok(bytes)).command is I2c <==> bytes[0] == 'i' as u8,
        cli.reply_to(Ok(bytes)).command is Analog <==> bytes[0] == 'a' as u8,
        cli.reply_to(Ok(bytes)).command is Buttons <==> bytes[0] == 'b' as u8,
        cli.reply_to(Ok(bytes)).line == Some(
            Line::Packet { number: cli.count, len: bytes.len() as usize, first: bytes[0] },
        ),
        cli.after(Ok(bytes)).count == cli.count + 1,
        cli.reply_to(Ok(Seq::<u8>::empty())).line is None,
        cli.reply_to(Ok(Seq::<u8>::empty())).command is Unknown,
        cli.after(Ok(Seq::<u8>::empty())) == cli,
        cli.reply_to(Err(error)).line == Some(Line::ReadError { error }),
        cli.reply_to(Err(error)).command is Unknown,
        cli.after(Err(error)) == cli,
        command_of(bytes[0]) == cli.reply_to(Ok(bytes)).command,
{
}

/// Whether a byte is the letter of a command.
pub open spec fn is_command(byte: u8) -> bool {
    byte == 'm' as u8 || byte == 'p' as u8 || byte == 'i' as u8 || byte == 'a' as u8 || byte
        == 'b' as u8
}

impl CliPacket {
    /// The line that notes the packet.
    pub fn line(&self) -> (line: Line)
        ensures
            line == (Line::Packet { number: self.number, len: self.len, first: self.first }),
    {
        Line::Packet { number: self.number, len: self.len, first: self.first }
    }
}

/// The answer to `m`.
pub fn memory_line<const N: usize>(allocator: &BumpAllocator<N>) -> (line: Line)
    requires
        allocator.head() <= N,
    ensures
        line == (Line::Memory { allocated: allocator.head() as usize, capacity: N }),
{
    Line::Memory {
        allocated: allocator.capacity() - allocator.free(),
        capacity: allocator.capacity(),
    }
}

/// The answer to `i`.
pub fn bus_line(panel: &Panel) -> (line: Line)
    ensures
        line == (Line::BusRound { duration: panel.duration, value: panel.final_value }),
{
    Line::BusRound { duration: panel.duration, value: panel.final_value }
}

/// The answer to `a` for one channel.
pub fn channel_line(channels: &[u16; 8], index: usize) -> (line: Line)
    requires
        index < 8,
    ensures
        line matches Line::Channel { index: i, raw, mapped } && i == index && raw
            == channels[index as int] && mapped == analog::axis_position(raw),
{
    Line::Channel {
        index,
        raw: channels[index],
        mapped: map_analog_channel(channels[index]),
    }
}

/// The lowest switch line that is low, if one is.
pub fn lowest_low_line(lines: u64) -> (line: Option<u32>)
    ensures
        match line {
            Some(i) => i < 64 && !bits::bit(lines, i as int) && forall|j: int|
                0 <= j < i ==> #[trigger] bits::bit(lines, j),
            None => lines == u64::MAX,
        },
{
    if !lines == 0 {
        assert(!lines == 0 ==> lines == u64::MAX) by (bit_vector);
        None
    } else {
        let line: u32 = (!lines).trailing_zeros();
        proof {
            vstd::std_specs::bits::axiom_u64_trailing_zeros(!lines);
            let k = line as u64;
            assert((!lines >> k) & 1 == 1 ==> !((lines >> k) & 1 == 1)) by (bit_vector)
                requires
                    k < 64,
            ;
            assert forall|j: int| 0 <= j < line implies #[trigger] bits::bit(lines, j) by {
                let k = j as u64;
                assert((!lines >> k) & 1 == 0);
                assert((!lines >> k) & 1 == 0 ==> (lines >> k) & 1 == 1) by (bit_vector)
                    requires
                        k < 64,
                ;
            }
        }
        Some(line)
    }
}

/// The answer to `b`: the switch lines, and the lowest that is low where one is.
pub fn switch_lines(lines: u64) -> (answer: (Line, Option<Line>))
    ensures
        answer.0 == (Line::SwitchLines { value: lines }),
        match answer.1 {
            Some(second) => second matches Line::LowestLowLine { line } && line < 64 && !bits::bit(
                lines,
                line as int,
            ) && forall|j: int| 0 <= j < line ==> #[trigger] bits::bit(lines, j),
            None => lines == u64::MAX,
        },
{
    let second: Option<Line> = match lowest_low_line(lines) {
        Some(line) => Some(Line::LowestLowLine { line }),
        None => None,
    };
    (Line::SwitchLines { value: lines }, second)
}

/// How long it took to start the times of the trace over.
pub fn reset_line(start: u64, end: u64) -> (line: Line)
    requires
        start <= end,
    ensures
        line == (Line::ResetTime { ticks: (end - start) as u64 }),
{
    Line::ResetTime { ticks: ticks_between(end, start) }
}

/// The figures of a profile, for the console.
pub struct ProfileSummary {
    pub total_ticks: u64,
    pub busy_ticks: u64,
    /// The task with the longest execution, where there is a task. Of several the last one listed.
    pub longest: Option<TaskProfile>,
    /// The tasks, those that ran longest last.
    pub tasks: heapless::Vec<TaskProfile, MAX_TASKS>,
}

/// Whether task `i` has the longest execution, and is the last that has it.
pub open spec fn is_last_longest(tasks: Seq<TaskProfile>, i: int) -> bool {
    &&& 0 <= i < tasks.len()
    &&& forall|j: int|
        0 <= j < i ==> (#[trigger] tasks[j]).longest_execution <= tasks[i].longest_execution
    &&& forall|j: int|
        i < j < tasks.len() ==> (#[trigger] tasks[j]).longest_execution
            < tasks[i].longest_execution
}

/// Finds the task with the longest execution. Of several it is the last.
pub fn longest_execution(tasks: &[TaskProfile]) -> (longest: Option<TaskProfile>)
    ensures
        longest is None <==> tasks@.len() == 0,
        longest matches Some(task) ==> exists|i: int|
            is_last_longest(tasks@, i) && task == #[trigger] tasks@[i],
        longest matches Some(task) ==> forall|j: int|
            0 <= j < tasks@.len() ==> (#[trigger] tasks@[j]).longest_execution
                <= task.longest_execution,
        longest matches Some(task) ==> exists|i: int|
            0 <= i < tasks@.len() && task == #[trigger] tasks@[i] && forall|j: int|
                i < j < tasks@.len() ==> (#[trigger] tasks@[j]).longest_execution
                    < task.longest_execution,
{
    if tasks.len() == 0 {
        return None;
    }
    let mut best: usize = 0;
    let mut i: usize = 1;
    while i < tasks.len()
        invariant
            best < i <= tasks@.len(),
            is_last_longest(tasks@.take(i as int), best as int),
        decreases tasks@.len() - i,
    {
        let ghost seen = tasks@.take(i as int);
        let ghost more = tasks@.take(i + 1);
        assert(forall|j: int| 0 <= j < i ==> #[trigger] more[j] == seen[j]);
        if tasks[i].longest_execution >= tasks[best].longest_execution {
            best = i;
        }
        i = i + 1;
    }
    assert(tasks@.take(i as int) =~= tasks@);
    Some(tasks[best])
}

impl ProfileSummary {
    /// The tasks, those that ran longest last.
    pub open spec fn sorted(self) -> Seq<TaskProfile> {
        tasklist::profiles_of(self.tasks)
    }

    /// The line about the task at `rank`, counted from the one that ran longest.
    pub open spec fn ranked_line(self, rank: int) -> Line {
        let task = self.sorted()[self.sorted().len() - 1 - rank];
        Line::TaskTime {
            name: task.name,
            run_ticks: task.run_ticks,
            longest: task.longest_execution,
        }
    }

    /// How many lines come before the lines about the tasks.
    pub open spec fn lead(self) -> int {
        if self.longest is Some {
            1
        } else {
            0
        }
    }

    /// The lines that answer `p` after the share of the busy time: the longest execution where
    /// there is a task, then every task, the one that ran longest first, then how long it took to
    /// start the times over.
    pub open spec fn answer(self, start: u64, end: u64) -> Seq<Line> {
        let longest = match self.longest {
            Some(task) => seq![
                Line::LongestExecution { name: task.name, ticks: task.longest_execution },
            ],
            None => seq![],
        };
        longest + Seq::new(self.sorted().len(), |rank: int| self.ranked_line(rank)) + seq![
            Line::ResetTime { ticks: (end - start) as u64 },
        ]
    }

    #[verifier::spinoff_prover]
    pub fn new(profile: Profile) -> (summary: ProfileSummary)
        requires
            profile.system.idle_ticks + profile.system.busy_ticks <= u64::MAX,
        ensures
            summary.total_ticks == profile.system.idle_ticks + profile.system.busy_ticks,
            summary.busy_ticks == profile.system.busy_ticks,
            summary.longest is None <==> profile.listed().len() == 0,
            summary.longest matches Some(task) ==> exists|i: int|
                is_last_longest(profile.listed(), i) && task == #[trigger] profile.listed()[i],
            summary.sorted().len() == profile.listed().len(),
            summary.sorted().to_multiset() == profile.listed().to_multiset(),
            forall|i: int, j: int|
                0 <= i < j < summary.sorted().len() ==> (
                #[trigger] summary.sorted()[i]).run_ticks <= (
                #[trigger] summary.sorted()[j]).run_ticks,
            summary.longest matches Some(task) ==> forall|j: int|
                0 <= j < profile.listed().len() ==> (
                #[trigger] profile.listed()[j]).longest_execution <= task.longest_execution,
            summary.longest matches Some(task) ==> exists|i: int|
                0 <= i < profile.listed().len() && task == #[trigger] profile.listed()[i]
                    && forall|j: int|
                    i < j < profile.listed().len() ==> (
                    #[trigger] profile.listed()[j]).longest_execution < task.longest_execution,
    {
        let total_ticks: u64 = profile.system.idle_ticks + profile.system.busy_ticks;
        let ghost listed = profile.listed();
        let longest: Option<TaskProfile> = longest_execution(profiles(&profile.tasks));
        proof {
            if let Some(task) = longest {
                let i = choose|i: int| is_last_longest(listed, i) && task == #[trigger] listed[i];
                assert(is_last_longest(profile.listed(), i) && task == profile.listed()[i]);
            }
        }
        let mut tasks: heapless::Vec<TaskProfile, MAX_TASKS> = profile.tasks;
        sort_by_run_ticks(profiles_mut(&mut tasks));
        ProfileSummary { total_ticks, busy_ticks: profile.system.busy_ticks, longest, tasks }
    }

    /// How many tasks there are.
    pub fn len(&self) -> (len: usize)
        ensures
            len == self.sorted().len(),
    {
        profiles(&self.tasks).len()
    }

    /// The line about the longest execution, where there is a task.
    pub fn longest_line(&self) -> (line: Option<Line>)
        ensures
            line == match self.longest {
                Some(task) => Some(
                    Line::LongestExecution { name: task.name, ticks: task.longest_execution },
                ),
                None => None,
            },
    {
        match self.longest {
            Some(task) => Some(
                Line::LongestExecution { name: task.name, ticks: task.longest_execution },
            ),
            None => None,
        }
    }

    /// The line about the task at `rank`, counted from the one that ran longest.
    pub fn task_line(&self, rank: usize) -> (line: Line)
        requires
            rank < self.sorted().len(),
        ensures
            line == self.ranked_line(rank as int),
            ({
                let task = self.sorted()[self.sorted().len() - 1 - rank];
                line == (Line::TaskTime {
                    name: task.name,
                    run_ticks: task.run_ticks,
                    longest: task.longest_execution,
                })
            }),
    {
        let tasks = profiles(&self.tasks);
        let task: TaskProfile = tasks[tasks.len() - 1 - rank];
        Line::TaskTime {
            name: task.name,
            run_ticks: task.run_ticks,
            longest: task.longest_execution,
        }
    }

    /// Line `step` of the answer to `p`, or nothing after the last. The times were started over
    /// between `start` and `end`.
    pub fn answer_line(&self, step: usize, start: u64, end: u64) -> (line: Option<Line>)
        requires
            start <= end,
        ensures
            line == if step < self.answer(start, end).len() {
                Some(self.answer(start, end)[step as int])
            } else {
                None
            },
            self.longest matches Some(task) ==> (step == 0 ==> line == Some(
                Line::LongestExecution { name: task.name, ticks: task.longest_execution },
            )),
            ({
                let rank = if self.longest is Some {
                    step - 1
                } else {
                    step as int
                };
                let count = self.sorted().len() as int;
                &&& 0 <= rank < count ==> {
                    let task = self.sorted()[count - 1 - rank];
                    line == Some(
                        Line::TaskTime {
                            name: task.name,
                            run_ticks: task.run_ticks,
                            longest: task.longest_execution,
                        },
                    )
                }
                &&& rank == count ==> line == Some(Line::ResetTime { ticks: (end - start) as u64 })
                &&& rank > count ==> line is None
            }),
    {
        let lead: usize = match self.longest {
            Some(_) => 1,
            None => 0,
        };
        if step < lead {
            self.longest_line()
        } else if step - lead < self.len() {
            Some(self.task_line(step - lead))
        } else if step - lead == self.len() {
            Some(reset_line(start, end))
        } else {
            None
        }
    }
}

/// The answer to `p` ends with the time that starting over took, and of two tasks in it the one
/// that is named first ran no shorter.
pub proof fn law_answer_ranks_tasks(
    summary: ProfileSummary,
    start: u64,
    end: u64,
    j: int,
    k: int,
)
    requires
        start <= end,
        forall|i: int, j: int|
            0 <= i < j < summary.sorted().len() ==> (#[trigger] summary.sorted()[i]).run_ticks <= (
            #[trigger] summary.sorted()[j]).run_ticks,
        0 <= j < k < summary.sorted().len(),
    ensures
        ({
            let answer = summary.answer(start, end);
            &&& answer.len() == summary.lead() + summary.sorted().len() + 1
            &&& answer.last() == (Line::ResetTime { ticks: (end - start) as u64 })
            &&& answer[summary.lead() + j] == summary.ranked_line(j)
            &&& answer[summary.lead() + k] == summary.ranked_line(k)
            &&& answer[summary.lead() + j]->TaskTime_run_ticks
                >= answer[summary.lead() + k]->TaskTime_run_ticks
        }),
{
}

/// The answer to `p` in full: the longest execution first where there is a task, then one line for
/// each task with its own name and times, and the time that starting over took at the end.
pub proof fn law_answer_in_full(summary: ProfileSummary, start: u64, end: u64, rank: int)
    requires
        start <= end,
        0 <= rank < summary.sorted().len(),
    ensures
        ({
            let answer = summary.answer(start, end);
            let task = summary.sorted()[summary.sorted().len() - 1 - rank];
            let line = Line::TaskTime {
                name: task.name,
                run_ticks: task.run_ticks,
                longest: task.longest_execution,
            };
            match summary.longest {
                Some(longest) => {
                    &&& answer.len() == summary.sorted().len() + 2
                    &&& answer[0] == (Line::LongestExecution {
                        name: longest.name,
                        ticks: longest.longest_execution,
                    })
                    &&& answer[1 + rank] == line
                    &&& answer.last() == (Line::ResetTime { ticks: (end - start) as u64 })
                },
                None => {
                    &&& answer.len() == summary.sorted().len() + 1
                    &&& answer[rank] == line
                    &&& answer.last() == (Line::ResetTime { ticks: (end - start) as u64 })
                },
            }
        }),
{
}

/// There is one task to name as the longest: no task ran longer at once, and none behind it in the
/// list ran as long.
pub proof fn law_longest_task_is_the_last(tasks: Seq<TaskProfile>, i: int, j: int)
    requires
        is_last_longest(tasks, i),
        0 <= j < tasks.len(),
    ensures
        0 <= i < tasks.len(),
        tasks[j].longest_execution <= tasks[i].longest_execution,
        j > i ==> tasks[j].longest_execution < tasks[i].longest_execution,
        is_last_longest(tasks, j) <==> j == i,
{
    if is_last_longest(tasks, j) && j < i {
        assert(tasks[i].longest_execution < tasks[j].longest_execution);
    } else if is_last_longest(tasks, j) && j > i {
        assert(tasks[i].longest_execution <= tasks[j].longest_execution);
    }
}

} // verus!
