use io_engine::fio::{decimal, Fio, FioJob, FioJobMode};

fn strings(args: &[&str]) -> Vec<String> {
    args.iter().map(|s| s.to_string()).collect()
}

#[test]
fn names_of_the_modes() {
    assert_eq!(FioJobMode::SeqRead.to_string(), "read");
    assert_eq!(FioJobMode::SeqWrite.to_string(), "write");
    assert_eq!(FioJobMode::SeqRw.to_string(), "rw");
    assert_eq!(FioJobMode::RandRead.to_string(), "randread");
    assert_eq!(FioJobMode::RandWrite.to_string(), "randwrite");
    assert_eq!(FioJobMode::RandRw.to_string(), "randrw");
    assert_eq!(FioJobMode::RandRw.as_str(), "randrw");
}

#[test]
fn new_job_has_the_defaults() {
    let job = FioJob::new("job0");
    assert_eq!(
        job,
        FioJob {
            name: "job0".to_string(),
            description: String::new(),
            size: 128,
            filename: String::new(),
            ioengine: "libaio".to_string(),
            blocksize: 4096,
            mode: FioJobMode::SeqRead,
            iodepth: 1,
            numjobs: 1,
            runtime: 60,
            zeros: false,
        }
    );
    assert_eq!(FioJob::new("").name, "");
}

#[test]
fn numbers_in_decimal() {
    assert_eq!(decimal(0), "0");
    assert_eq!(decimal(7), "7");
    assert_eq!(decimal(9), "9");
    assert_eq!(decimal(10), "10");
    assert_eq!(decimal(11), "11");
    assert_eq!(decimal(99), "99");
    assert_eq!(decimal(100), "100");
    assert_eq!(decimal(4096), "4096");
    assert_eq!(decimal(1234567890), "1234567890");
    assert_eq!(decimal(134217728), "134217728");
    assert_eq!(decimal(u64::MAX), "18446744073709551615");
    for n in [1u64, 19, 20, 101, 909, 65535, 1 << 32, u64::MAX - 1] {
        assert_eq!(decimal(n), n.to_string());
    }
}

#[test]
fn arguments_of_a_new_job() {
    let job = FioJob::new("job0");
    assert_eq!(
        job.args(),
        strings(&[
            "--name=job0",
            "--filename=",
            "--ioengine=libaio",
            "--direct=1",
            "--size=134217728",
            "--bs=4096",
            "--rw=read",
            "--iodepth=1",
            "--numjobs=1",
            "--time_based",
            "--runtime=60",
        ])
    );
}

#[test]
fn arguments_of_a_job_for_a_replica() {
    let mut job = FioJob::new("r0");
    job.filename = "/dev/nvme1n1".to_string();
    job.mode = FioJobMode::RandRw;
    job.size = 20 * 1024;
    job.runtime = 30;
    job.iodepth = 16;
    job.numjobs = 1;
    assert_eq!(
        job.args(),
        strings(&[
            "--name=r0",
            "--filename=/dev/nvme1n1",
            "--ioengine=libaio",
            "--direct=1",
            "--size=21474836480",
            "--bs=4096",
            "--rw=randrw",
            "--iodepth=16",
            "--numjobs=1",
            "--time_based",
            "--runtime=30",
        ])
    );
}

#[test]
fn arguments_of_a_job_that_is_not_bound_by_time() {
    let mut job = FioJob::new("fill");
    job.runtime = 0;
    job.mode = FioJobMode::SeqWrite;
    let args = job.args();
    assert_eq!(args.len(), 9);
    assert_eq!(args[6], "--rw=write");
    assert!(!args.contains(&"--time_based".to_string()));
    assert!(!args.iter().any(|a| a.starts_with("--runtime=")));
}

#[test]
fn arguments_of_a_job_that_writes_zeros() {
    let mut job = FioJob::new("zero");
    job.zeros = true;
    let args = job.args();
    assert_eq!(args.len(), 12);
    assert_eq!(args[11], "--zero_buffers");
    job.runtime = 0;
    let args = job.args();
    assert_eq!(args.len(), 10);
    assert_eq!(args[9], "--zero_buffers");
}

#[test]
fn arguments_at_the_limits() {
    let mut job = FioJob::new("big");
    job.size = u64::MAX / (1024 * 1024);
    job.blocksize = u64::MAX;
    job.iodepth = u16::MAX;
    job.numjobs = 0;
    job.runtime = u32::MAX;
    let args = job.args();
    assert_eq!(args[4], "--size=18446744073708503040");
    assert_eq!(args[5], "--bs=18446744073709551615");
    assert_eq!(args[7], "--iodepth=65535");
    assert_eq!(args[8], "--numjobs=0");
    assert_eq!(args[10], "--runtime=4294967295");
}

#[test]
fn command_line_of_a_run() {
    let fio = Fio::new("bench_r0", vec![]);
    assert_eq!(fio.desc, "bench_r0");
    assert_eq!(fio.args(), strings(&["fio"]));

    let mut second = FioJob::new("b");
    second.runtime = 0;
    second.zeros = true;
    let fio = Fio::new("two", vec![FioJob::new("a"), second.clone()]);
    assert_eq!(fio.jobs.len(), 2);
    let mut expected = strings(&["fio"]);
    expected.extend(FioJob::new("a").args());
    expected.extend(second.args());
    assert_eq!(fio.args(), expected);
    assert_eq!(fio.args().len(), 1 + 11 + 10);
    assert_eq!(fio.args()[12], "--name=b");
}
