//! Jobs for the `fio` I/O tester, with which a volume is put under load.
//!
//! A job is described by a few values; what `fio` is given is a list of
//! arguments made from them.

use vstd::prelude::*;

verus! {

/// How a job reads and writes.
#[derive(Debug, Clone, Copy, PartialEq, Eq, Structural)]
pub enum FioJobMode {
    SeqRead,
    SeqWrite,
    SeqRw,
    RandRead,
    RandWrite,
    RandRw,
}

impl FioJobMode {
    /// The name that `fio` has for the mode.
    pub open spec fn name(self) -> Seq<char> {
        match self {
            FioJobMode::SeqRead => "read"@,
            FioJobMode::SeqWrite => "write"@,
            FioJobMode::SeqRw => "rw"@,
            FioJobMode::RandRead => "randread"@,
            FioJobMode::RandWrite => "randwrite"@,
            FioJobMode::RandRw => "randrw"@,
        }
    }

    /// Returns the name that `fio` has for the mode.
    pub fn as_str(&self) -> (name: &'static str)
        ensures
            name@ == self.name(),
    {
        match self {
            FioJobMode::SeqRead => "read",
            FioJobMode::SeqWrite => "write",
            FioJobMode::SeqRw => "rw",
            FioJobMode::RandRead => "randread",
            FioJobMode::RandWrite => "randwrite",
            FioJobMode::RandRw => "randrw",
        }
    }

    /// Returns the name that `fio` has for the mode.
    pub fn to_string(&self) -> (name: String)
        ensures
            name@ == self.name(),
    {
        self.as_str().to_owned()
    }
}

/// The character of a decimal digit.
pub open spec fn digit(d: nat) -> char
    recommends
        d < 10,
{
    if d == 0 {
        '0'
    } else if d == 1 {
        '1'
    } else if d == 2 {
        '2'
    } else if d == 3 {
        '3'
    } else if d == 4 {
        '4'
    } else if d == 5 {
        '5'
    } else if d == 6 {
        '6'
    } else if d == 7 {
        '7'
    } else if d == 8 {
        '8'
    } else {
        '9'
    }
}

/// The decimal digits of a number, the highest first and without leading
/// zeros; zero is `0`.
pub open spec fn decimal_digits(n: nat) -> Seq<char>
    decreases n,
{
    if n < 10 {
        seq![digit(n)]
    } else {
        decimal_digits(n / 10).push(digit(n % 10))
    }
}

/// The text of one decimal digit.
fn digit_str(d: u64) -> (text: &'static str)
    requires
        d < 10,
    ensures
        text@ == seq![digit(d as nat)],
{
    proof {
        reveal_strlit("0");
        reveal_strlit("1");
        reveal_strlit("2");
        reveal_strlit("3");
        reveal_strlit("4");
        reveal_strlit("5");
        reveal_strlit("6");
        reveal_strlit("7");
        reveal_strlit("8");
        reveal_strlit("9");
    }
    let text = match d {
        0 => "0",
        1 => "1",
        2 => "2",
        3 => "3",
        4 => "4",
        5 => "5",
        6 => "6",
        7 => "7",
        8 => "8",
        _ => "9",
    };
    proof {
        assert(text@ =~= seq![digit(d as nat)]);
    }
    text
}

/// Writes a number in decimal digits.
pub fn decimal(n: u64) -> (text: String)
    ensures
        text@ == decimal_digits(n as nat),
{
    let mut text = digit_str(n % 10).to_owned();
    let mut rest = n / 10;
    while rest > 0
        invariant
            decimal_digits(n as nat) == if rest > 0 {
                decimal_digits(rest as nat) + text@
            } else {
                text@
            },
        decreases rest,
    {
        let ghost before = text@;
        text = digit_str(rest % 10).to_owned().concat(text.as_str());
        proof {
            if rest >= 10 {
                assert(decimal_digits((rest / 10) as nat) + text@ =~= decimal_digits(rest as nat)
                    + before);
            } else {
                assert(text@ =~= decimal_digits(rest as nat) + before);
            }
        }
        rest = rest / 10;
    }
    text
}

/// An argument made of a key and a value.
fn argument(key: &str, value: &str) -> (text: String)
    ensures
        text@ == key@ + value@,
{
    key.to_owned().concat(value)
}

/// A job for `fio`.
#[derive(Debug, Clone, PartialEq, Eq)]
pub struct FioJob {
    pub name: String,
    pub description: String,
    /// Size of the I/O region, in MiB.
    pub size: u64,
    pub filename: String,
    pub ioengine: String,
    /// Block size in bytes.
    pub blocksize: u64,
    pub mode: FioJobMode,
    pub iodepth: u16,
    pub numjobs: u16,
    /// Run time in seconds; zero for a job that is not bound by time.
    pub runtime: u32,
    /// Write zeros in place of random data.
    pub zeros: bool,
}

impl FioJob {
    /// A job of the given name that reads 128 MiB in sequence through
    /// `libaio`, in blocks of 4 KiB, one request at a time in one process,
    /// for 60 seconds. It has no description and no file yet.
    pub fn new(name: &str) -> (job: Self)
        ensures
            job.name@ == name@,
            job.description@ == Seq::<char>::empty(),
            job.size == 128,
            job.filename@ == Seq::<char>::empty(),
            job.ioengine@ == "libaio"@,
            job.blocksize == 4096,
            job.mode == FioJobMode::SeqRead,
            job.iodepth == 1,
            job.numjobs == 1,
            job.runtime == 60,
            !job.zeros,
    {
        Self {
            name: name.to_owned(),
            description: String::new(),
            size: 128,
            filename: String::new(),
            ioengine: "libaio".to_owned(),
            blocksize: 4 * 1024,
            mode: FioJobMode::SeqRead,
            iodepth: 1,
            numjobs: 1,
            runtime: 60,
            zeros: false,
        }
    }

    /// The arguments that `fio` is given for the job: its name, file and
    /// engine, direct I/O, the size in bytes, the block size, the mode, the
    /// depth and the number of processes; for a job bound by time the run
    /// time; and the request for zeros where the job writes zeros.
    pub open spec fn arguments(self) -> Seq<Seq<char>> {
        seq![
            "--name="@ + self.name@,
            "--filename="@ + self.filename@,
            "--ioengine="@ + self.ioengine@,
            "--direct=1"@,
            "--size="@ + decimal_digits((self.size * 1024 * 1024) as nat),
            "--bs="@ + decimal_digits(self.blocksize as nat),
            "--rw="@ + self.mode.name(),
            "--iodepth="@ + decimal_digits(self.iodepth as nat),
            "--numjobs="@ + decimal_digits(self.numjobs as nat),
        ] + (if self.runtime > 0 {
            seq!["--time_based"@, "--runtime="@ + decimal_digits(self.runtime as nat)]
        } else {
            Seq::<Seq<char>>::empty()
        }) + (if self.zeros {
            seq!["--zero_buffers"@]
        } else {
            Seq::<Seq<char>>::empty()
        })
    }

    /// The size of the job in bytes fits in 64 bits.
    pub open spec fn size_fits(self) -> bool {
        self.size * 1024 * 1024 <= u64::MAX
    }

    /// Returns the arguments that `fio` is given for the job.
    pub fn args(&self) -> (args: Vec<String>)
        requires
            self.size_fits(),
        ensures
            args.deep_view() == self.arguments(),
    {
        let mut args: Vec<String> = Vec::new();
        args.push(argument("--name=", self.name.as_str()));
        args.push(argument("--filename=", self.filename.as_str()));
        args.push(argument("--ioengine=", self.ioengine.as_str()));
        args.push("--direct=1".to_owned());
        args.push(argument("--size=", decimal(self.size * 1024 * 1024).as_str()));
        args.push(argument("--bs=", decimal(self.blocksize).as_str()));
        args.push(argument("--rw=", self.mode.as_str()));
        args.push(argument("--iodepth=", decimal(self.iodepth as u64).as_str()));
        args.push(argument("--numjobs=", decimal(self.numjobs as u64).as_str()));

        if self.runtime > 0 {
            args.push("--time_based".to_owned());
            args.push(argument("--runtime=", decimal(self.runtime as u64).as_str()));
        }
        if self.zeros {
            args.push("--zero_buffers".to_owned());
        }
        proof {
            assert(args.deep_view() =~= self.arguments());
        }
        args
    }
}

/// A run of `fio` with one or more jobs.
#[derive(Debug, Clone, PartialEq, Eq)]
pub struct Fio {
    /// What the run is for.
    pub desc: String,
    pub jobs: Vec<FioJob>,
}

/// The command line of a run: `fio`, and the arguments of each job in turn.
pub open spec fn command_line(jobs: Seq<FioJob>) -> Seq<Seq<char>>
    decreases jobs.len(),
{
    if jobs.len() == 0 {
        seq!["fio"@]
    } else {
        command_line(jobs.drop_last()) + jobs.last().arguments()
    }
}

impl Fio {
    /// A run of the given jobs.
    pub fn new(desc: &str, jobs: Vec<FioJob>) -> (fio: Self)
        ensures
            fio.desc@ == desc@,
            fio.jobs == jobs,
    {
        Self { desc: desc.to_owned(), jobs }
    }

    /// Returns the command line of the run.
    pub fn args(&self) -> (args: Vec<String>)
        requires
            forall|i: int| 0 <= i < self.jobs@.len() ==> (#[trigger] self.jobs@[i]).size_fits(),
        ensures
            args.deep_view() == command_line(self.jobs@),
    {
        let mut args: Vec<String> = Vec::new();
        args.push("fio".to_owned());
        proof {
            assert(args.deep_view() =~= command_line(self.jobs@.take(0)));
        }
        let mut i: usize = 0;
        while i < self.jobs.len()
            invariant
                i <= self.jobs.len(),
                forall|k: int| 0 <= k < self.jobs@.len() ==> (#[trigger] self.jobs@[k]).size_fits(),
                args.deep_view() == command_line(self.jobs@.take(i as int)),
            decreases self.jobs.len() - i,
        {
            let ghost before = args.deep_view();
            let mut job_args = self.jobs[i].args();
            let ghost added = job_args.deep_view();
            args.append(&mut job_args);
            proof {
                assert(self.jobs@.take(i + 1).drop_last() =~= self.jobs@.take(i as int));
                assert(args.deep_view() =~= before + added);
            }
            i += 1;
        }
        proof {
            assert(self.jobs@.take(self.jobs.len() as int) =~= self.jobs@);
        }
        args
    }
}

} // verus!
