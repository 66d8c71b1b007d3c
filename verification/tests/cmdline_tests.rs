use m3kern::cmdline::{parse_bench_args, parse_repeater_args, parse_u64, parse_usize, BenchSettings, MemMode};
use m3kern::errors::Code;

fn t(s: &str) -> Vec<u8> {
    s.as_bytes().to_vec()
}

fn argv(a: &[&str]) -> Vec<Vec<u8>> {
    a.iter().map(|s| t(s)).collect()
}

#[test]
fn decimal_numbers() {
    assert_eq!(parse_u64(&t("42")), Some(42));
    assert_eq!(parse_u64(&t("+7")), Some(7));
    assert_eq!(parse_u64(&t("007")), Some(7));
    assert_eq!(parse_u64(&t("18446744073709551615")), Some(u64::MAX));
    assert_eq!(parse_u64(&t("18446744073709551616")), None);
    assert_eq!(parse_u64(&t("")), None);
    assert_eq!(parse_u64(&t("+")), None);
    assert_eq!(parse_u64(&t("-1")), None);
    assert_eq!(parse_u64(&t("1a")), None);
    assert_eq!(parse_u64(&t("++1")), None);
    assert_eq!(parse_usize(&t("4096")), Some(4096));
    assert_eq!(parse_usize(&t("x")), None);
    // the same numbers as std reads them
    for s in ["0", "+0", "123456789", "99999999999999999999", " 1", "1 "] {
        assert_eq!(parse_u64(&t(s)), s.parse::<u64>().ok());
    }
}

#[test]
fn benchmark_options() {
    let s = parse_bench_args(&argv(&["exregs"])).unwrap();
    assert_eq!(s, BenchSettings { repeats: 1, warmup: 0, exregs: 0, data_size: 4096 });
    let s = parse_bench_args(&argv(&["exregs", "-r", "10", "-w", "2", "-e", "3", "-d", "8192"])).unwrap();
    assert_eq!(s, BenchSettings { repeats: 10, warmup: 2, exregs: 3, data_size: 8192 });
    // the first other argument ends the options
    let s = parse_bench_args(&argv(&["exregs", "-r", "5", "x", "-w", "9"])).unwrap();
    assert_eq!(s, BenchSettings { repeats: 5, warmup: 0, exregs: 0, data_size: 4096 });
    assert_eq!(parse_bench_args(&argv(&["exregs", "-w", "two"])), Err(Code::InvArgs));
}

#[test]
fn repeater_options() {
    let s = parse_repeater_args(&argv(&["rep", "-r", "3", "-t", "-s", "shm1", "-s", "shm2", "-m", "1M", "/bin/app", "a"]))
        .ok()
        .unwrap();
    assert_eq!(s.repeats, 3);
    assert_eq!(s.warmup, 0);
    assert!(s.tee);
    assert_eq!(s.shmem, vec![t("shm1"), t("shm2")]);
    assert_eq!(s.mux_mem, Some(t("1M")));
    assert_eq!(s.args, vec![t("/bin/app"), t("a")]);
    let s = parse_repeater_args(&argv(&["rep", "prog"])).ok().unwrap();
    assert_eq!((s.repeats, s.warmup, s.tee, s.mux_mem.is_none()), (1, 0, false, true));
    assert_eq!(s.args, vec![t("prog")]);
    assert!(matches!(parse_repeater_args(&argv(&["rep", "-w", "2"])), Err(Code::InvArgs)));
    assert!(matches!(parse_repeater_args(&argv(&["rep", "-t"])), Err(Code::InvArgs)));
    assert!(matches!(parse_repeater_args(&argv(&["rep", "-r", "x", "prog"])), Err(Code::InvArgs)));
}

#[test]
fn memory_benchmark_modes() {
    assert_eq!(MemMode::parse(&t("tcudram")), Ok(MemMode::TcuDram));
    assert_eq!(MemMode::parse(&t("tcuspm")), Ok(MemMode::TcuSpm));
    assert_eq!(MemMode::parse(&t("copy")), Ok(MemMode::Copy));
    assert_eq!(MemMode::parse(&t("rand")), Ok(MemMode::Random));
    assert_eq!(MemMode::parse(&t("random")), Err(Code::InvArgs));
    assert_eq!(MemMode::parse(&t("")), Err(Code::InvArgs));
}
