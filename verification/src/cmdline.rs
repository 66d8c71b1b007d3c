//! Command lines of the benchmark programs: decimal numbers, the options of the external-region
//! benchmark and of the repeater, and the modes of the memory benchmark.
use vstd::prelude::*;

use crate::errors::Code;

verus! {

/// Is `b` an ASCII decimal digit?
pub open spec fn is_digit(b: u8) -> bool {
    0x30 <= b && b <= 0x39
}

/// Does `d` consist of decimal digits only?
pub open spec fn all_digits(d: Seq<u8>) -> bool {
    forall|i: int| 0 <= i < d.len() ==> is_digit(#[trigger] d[i])
}

/// The value of the decimal digits `d`.
pub open spec fn numeral(d: Seq<u8>) -> int
    decreases d.len(),
{
    if d.len() == 0 {
        0
    } else {
        numeral(d.drop_last()) * 10 + (d.last() - 0x30)
    }
}

/// The digits of an unsigned number as text: without a leading `+`.
pub open spec fn unsigned_digits(s: Seq<u8>) -> Seq<u8> {
    if s.len() > 0 && s[0] == 0x2b {
        s.drop_first()
    } else {
        s
    }
}

/// The unsigned number that the text `s` denotes, if it is one no larger than `max`: an
/// optional `+` followed by at least one decimal digit and nothing else.
pub open spec fn spec_parse_unsigned(s: Seq<u8>, max: int) -> Option<int> {
    let d = unsigned_digits(s);
    if d.len() > 0 && all_digits(d) && numeral(d) <= max {
        Some(numeral(d))
    } else {
        None
    }
}

/// Lemma: digits have a value of at least 0.
pub proof fn lemma_numeral_nonneg(d: Seq<u8>)
    requires
        all_digits(d),
    ensures
        numeral(d) >= 0,
    decreases d.len(),
{
    if d.len() > 0 {
        lemma_numeral_nonneg(d.drop_last());
    }
}

/// Lemma: a prefix of digits has at most the value of all of them.
pub proof fn lemma_numeral_prefix(d: Seq<u8>, k: int)
    requires
        all_digits(d),
        0 <= k <= d.len(),
    ensures
        numeral(d.take(k)) <= numeral(d),
    decreases d.len(),
{
    if k < d.len() {
        lemma_numeral_prefix(d.drop_last(), k);
        assert(d.drop_last().take(k) =~= d.take(k));
        lemma_numeral_nonneg(d.drop_last());
    } else {
        assert(d.take(k) =~= d);
    }
}

/// Reads the unsigned 64-bit number that `s` denotes (see `spec_parse_unsigned`).
pub fn parse_u64(s: &Vec<u8>) -> (r: Option<u64>)
    ensures
        r == match spec_parse_unsigned(s@, u64::MAX as int) {
            Some(v) => Some(v as u64),
            None => None::<u64>,
        },
{
    let start: usize = if s.len() > 0 && s[0] == 0x2b {
        1
    } else {
        0
    };
    let ghost d = unsigned_digits(s@);
    assert(d =~= s@.subrange(start as int, s@.len() as int));
    if start >= s.len() {
        return None;
    }
    let mut v: u64 = 0;
    let mut i: usize = start;
    while i < s.len()
        invariant
            start <= i <= s@.len(),
            d == s@.subrange(start as int, s@.len() as int),
            d == unsigned_digits(s@),
            d.len() > 0,
            all_digits(d.take(i - start)),
            v == numeral(d.take(i - start)),
        decreases s@.len() - i,
    {
        let b = s[i];
        let ghost k = i - start;
        proof {
            assert(d[k] == b);
            assert(d.take(k + 1).drop_last() =~= d.take(k));
            assert(d.take(k + 1).last() == b);
        }
        if b < 0x30 || b > 0x39 {
            assert(!is_digit(d[k]));
            return None;
        }
        let next = match v.checked_mul(10) {
            Some(t) => t.checked_add((b - 0x30) as u64),
            None => None,
        };
        match next {
            Some(n) => {
                v = n;
            },
            None => {
                proof {
                    assert(numeral(d.take(k + 1)) > u64::MAX);
                    if all_digits(d) {
                        lemma_numeral_prefix(d, k + 1);
                    }
                }
                return None;
            },
        }
        proof {
            assert(all_digits(d.take(k + 1)));
        }
        i += 1;
    }
    assert(d.take(d.len() as int) =~= d);
    Some(v)
}

/// Reads the unsigned number of machine size that `s` denotes (see `spec_parse_unsigned`).
pub fn parse_usize(s: &Vec<u8>) -> (r: Option<usize>)
    ensures
        r == match spec_parse_unsigned(s@, usize::MAX as int) {
            Some(v) => Some(v as usize),
            None => None::<usize>,
        },
{
    let ghost d = unsigned_digits(s@);
    proof {
        if all_digits(d) {
            lemma_numeral_nonneg(d);
        }
    }
    match parse_u64(s) {
        Some(v) => {
            if v <= usize::MAX as u64 {
                Some(v as usize)
            } else {
                None
            }
        },
        None => None,
    }
}

/// Is `a` the option `-c`?
pub open spec fn is_opt(a: Seq<u8>, c: u8) -> bool {
    a.len() == 2 && a[0] == 0x2d && a[1] == c
}

/// Is `a` the option `-c`?
pub fn opt_is(a: &Vec<u8>, c: u8) -> (r: bool)
    ensures
        r == is_opt(a@, c),
{
    a.len() == 2 && a[0] == 0x2d && a[1] == c
}

/// The settings of the external-region benchmark.
#[derive(Clone, Copy, Debug, PartialEq, Eq, Structural)]
pub struct BenchSettings {
    pub repeats: u64,
    pub warmup: u64,
    pub exregs: u64,
    pub data_size: usize,
}

/// The settings without options: one run, no warmup, no external regions, 4 KiB of data.
pub open spec fn default_bench() -> BenchSettings {
    BenchSettings { repeats: 1, warmup: 0, exregs: 0, data_size: 4096 }
}

/// The outcome of reading the options of the external-region benchmark from `args[i]` on,
/// with `s` read so far: `-r`, `-w`, `-e` and `-d` each take a number (repeats, warmup runs,
/// external regions, data size) as the next argument, and the first other argument ends the
/// options. `None` where an option lacks its argument.
pub open spec fn bench_scan(args: Seq<Vec<u8>>, i: int, s: BenchSettings) -> Option<Result<BenchSettings, Code>>
    decreases args.len() - i,
{
    if i < 0 || i >= args.len() {
        Some(Ok(s))
    } else {
        let a = args[i]@;
        if !(is_opt(a, 0x72) || is_opt(a, 0x77) || is_opt(a, 0x65) || is_opt(a, 0x64)) {
            Some(Ok(s))
        } else if i + 1 >= args.len() {
            None
        } else if is_opt(a, 0x64) {
            match spec_parse_unsigned(args[i + 1]@, usize::MAX as int) {
                None => Some(Err(Code::InvArgs)),
                Some(n) => bench_scan(args, i + 2, BenchSettings { data_size: n as usize, ..s }),
            }
        } else {
            match spec_parse_unsigned(args[i + 1]@, u64::MAX as int) {
                None => Some(Err(Code::InvArgs)),
                Some(n) => bench_scan(
                    args,
                    i + 2,
                    if is_opt(a, 0x72) {
                        BenchSettings { repeats: n as u64, ..s }
                    } else if is_opt(a, 0x77) {
                        BenchSettings { warmup: n as u64, ..s }
                    } else {
                        BenchSettings { exregs: n as u64, ..s }
                    },
                ),
            }
        }
    }
}

/// Reads the options of the external-region benchmark from its arguments (the first is the
/// program's name; see `bench_scan`).
///
/// Fails with `InvArgs` for an argument of an option that is no number.
pub fn parse_bench_args(args: &Vec<Vec<u8>>) -> (r: Result<BenchSettings, Code>)
    requires
        bench_scan(args@, 1, default_bench()) is Some,
    ensures
        Some(r) == bench_scan(args@, 1, default_bench()),
{
    let mut s = BenchSettings { repeats: 1, warmup: 0, exregs: 0, data_size: 4096 };
    let mut i: usize = 1;
    while i < args.len()
        invariant
            1 <= i,
            bench_scan(args@, i as int, s) == bench_scan(args@, 1, default_bench()),
            bench_scan(args@, 1, default_bench()) is Some,
        decreases args@.len() - i,
    {
        let a = &args[i];
        let is_r = opt_is(a, 0x72);
        let is_w = opt_is(a, 0x77);
        let is_e = opt_is(a, 0x65);
        let is_d = opt_is(a, 0x64);
        if !(is_r || is_w || is_e || is_d) {
            return Ok(s);
        }
        let v = &args[i + 1];
        if is_d {
            match parse_usize(v) {
                None => {
                    return Err(Code::InvArgs);
                },
                Some(n) => {
                    s = BenchSettings { data_size: n, ..s };
                },
            }
        } else {
            match parse_u64(v) {
                None => {
                    return Err(Code::InvArgs);
                },
                Some(n) => {
                    if is_r {
                        s = BenchSettings { repeats: n, ..s };
                    } else if is_w {
                        s = BenchSettings { warmup: n, ..s };
                    } else {
                        s = BenchSettings { exregs: n, ..s };
                    }
                },
            }
        }
        i += 2;
    }
    Ok(s)
}

/// The settings of the repeater, which runs a program repeatedly: the number of runs and of
/// warmup runs, the program's arguments (its name first), the names of shared memory regions
/// to give it exclusively, the text of the memory size if it runs as a multiplexer, and
/// whether it runs as a trusted execution environment.
pub struct RepeaterSettings {
    pub repeats: u64,
    pub warmup: u64,
    pub args: Vec<Vec<u8>>,
    pub shmem: Vec<Vec<u8>>,
    pub mux_mem: Option<Vec<u8>>,
    pub tee: bool,
}

/// The repeater's settings as values.
pub struct RepeaterView {
    pub repeats: u64,
    pub warmup: u64,
    pub args: Seq<Seq<u8>>,
    pub shmem: Seq<Seq<u8>>,
    pub mux_mem: Option<Seq<u8>>,
    pub tee: bool,
}

/// The contents of the byte strings in `v`.
pub open spec fn texts(v: Seq<Vec<u8>>) -> Seq<Seq<u8>> {
    v.map_values(|a: Vec<u8>| a@)
}

impl View for RepeaterSettings {
    type V = RepeaterView;

    open spec fn view(&self) -> RepeaterView {
        RepeaterView {
            repeats: self.repeats,
            warmup: self.warmup,
            args: texts(self.args@),
            shmem: texts(self.shmem@),
            mux_mem: match self.mux_mem {
                Some(m) => Some(m@),
                None => None,
            },
            tee: self.tee,
        }
    }
}

/// The repeater's settings before its options are read: one run, no warmup.
pub open spec fn default_repeater() -> RepeaterView {
    RepeaterView {
        repeats: 1,
        warmup: 0,
        args: Seq::empty(),
        shmem: Seq::empty(),
        mux_mem: None,
        tee: false,
    }
}

/// The outcome of reading the repeater's options from `args[i]` on, with `s` read so far:
/// `-r` and `-w` take a number (runs, warmup runs), `-m` a memory size, `-s` the name of a
/// shared memory region, and `-t` nothing; the first other argument starts the program's
/// arguments, which have to be there. `None` where an option lacks its argument.
pub open spec fn repeater_scan(args: Seq<Vec<u8>>, i: int, s: RepeaterView) -> Option<Result<RepeaterView, Code>>
    decreases args.len() - i,
{
    if i < 0 || i >= args.len() {
        Some(Err(Code::InvArgs))
    } else {
        let a = args[i]@;
        if is_opt(a, 0x74) {
            repeater_scan(args, i + 1, RepeaterView { tee: true, ..s })
        } else if !(is_opt(a, 0x72) || is_opt(a, 0x77) || is_opt(a, 0x6d) || is_opt(a, 0x73)) {
            Some(Ok(RepeaterView { args: texts(args.subrange(i, args.len() as int)), ..s }))
        } else if i + 1 >= args.len() {
            None
        } else {
            let v = args[i + 1]@;
            if is_opt(a, 0x6d) {
                repeater_scan(args, i + 2, RepeaterView { mux_mem: Some(v), ..s })
            } else if is_opt(a, 0x73) {
                repeater_scan(args, i + 2, RepeaterView { shmem: s.shmem.push(v), ..s })
            } else {
                match spec_parse_unsigned(v, u64::MAX as int) {
                    None => Some(Err(Code::InvArgs)),
                    Some(n) => repeater_scan(
                        args,
                        i + 2,
                        if is_opt(a, 0x72) {
                            RepeaterView { repeats: n as u64, ..s }
                        } else {
                            RepeaterView { warmup: n as u64, ..s }
                        },
                    ),
                }
            }
        }
    }
}

/// A copy of the byte string `a`.
pub fn copy_text(a: &Vec<u8>) -> (r: Vec<u8>)
    ensures
        r@ == a@,
{
    let r = a.clone();
    assert(r@ =~= a@);
    r
}

/// Reads the repeater's options from its arguments (the first is the repeater's name; see
/// `repeater_scan`).
///
/// Fails with `InvArgs` for a number that is none and if no program is given.
pub fn parse_repeater_args(args: &Vec<Vec<u8>>) -> (r: Result<RepeaterSettings, Code>)
    requires
        repeater_scan(args@, 1, default_repeater()) is Some,
    ensures
        match repeater_scan(args@, 1, default_repeater()) {
            Some(Ok(v)) => r matches Ok(s) && s@ == v,
            Some(Err(e)) => r == Err::<RepeaterSettings, Code>(e),
            None => false,
        },
{
    let mut repeats: u64 = 1;
    let mut warmup: u64 = 0;
    let mut shmem: Vec<Vec<u8>> = Vec::new();
    let mut mux_mem: Option<Vec<u8>> = None;
    let mut tee = false;
    let mut i: usize = 1;
    assert(texts(shmem@) =~= Seq::<Seq<u8>>::empty());
    loop
        invariant
            1 <= i,
            repeater_scan(
                args@,
                i as int,
                RepeaterView {
                    repeats,
                    warmup,
                    args: Seq::empty(),
                    shmem: texts(shmem@),
                    mux_mem: match mux_mem {
                        Some(m) => Some(m@),
                        None => None,
                    },
                    tee,
                },
            ) == repeater_scan(args@, 1, default_repeater()),
            repeater_scan(args@, 1, default_repeater()) is Some,
        decreases args@.len() - i,
    {
        if i >= args.len() {
            return Err(Code::InvArgs);
        }
        let a = &args[i];
        if opt_is(a, 0x74) {
            tee = true;
            i += 1;
        } else {
            let is_r = opt_is(a, 0x72);
            let is_w = opt_is(a, 0x77);
            let is_m = opt_is(a, 0x6d);
            let is_s = opt_is(a, 0x73);
            if !(is_r || is_w || is_m || is_s) {
                let mut rest: Vec<Vec<u8>> = Vec::new();
                let mut j: usize = i;
                while j < args.len()
                    invariant
                        i <= j <= args@.len(),
                        texts(rest@) == texts(args@.subrange(i as int, j as int)),
                    decreases args@.len() - j,
                {
                    let t = copy_text(&args[j]);
                    let ghost before = rest@;
                    rest.push(t);
                    proof {
                        let pre = args@.subrange(i as int, j as int);
                        assert(args@.subrange(i as int, j + 1) =~= pre.push(args@[j as int]));
                        assert(texts(pre.push(args@[j as int])) =~= texts(pre).push(args@[j as int]@));
                        assert(texts(rest@) =~= texts(before).push(t@));
                    }
                    j += 1;
                }
                return Ok(RepeaterSettings { repeats, warmup, args: rest, shmem, mux_mem, tee });
            }
            let v = &args[i + 1];
            if is_m {
                mux_mem = Some(copy_text(v));
            } else if is_s {
                let t = copy_text(v);
                let ghost before = shmem@;
                shmem.push(t);
                proof {
                    assert(texts(shmem@) =~= texts(before).push(v@));
                }
            } else {
                match parse_u64(v) {
                    None => {
                        return Err(Code::InvArgs);
                    },
                    Some(n) => {
                        if is_r {
                            repeats = n;
                        } else {
                            warmup = n;
                        }
                    },
                }
            }
            i += 2;
        }
    }
}

/// What the memory benchmark measures.
#[derive(Clone, Copy, Debug, PartialEq, Eq, Structural)]
pub enum MemMode {
    Copy,
    TcuDram,
    TcuSpm,
    Random,
}

/// The mode named `s`: `tcudram`, `tcuspm`, `copy` or `rand`.
pub open spec fn spec_mem_mode(s: Seq<u8>) -> Option<MemMode> {
    if s == seq![0x74u8, 0x63, 0x75, 0x64, 0x72, 0x61, 0x6d] {
        Some(MemMode::TcuDram)
    } else if s == seq![0x74u8, 0x63, 0x75, 0x73, 0x70, 0x6d] {
        Some(MemMode::TcuSpm)
    } else if s == seq![0x63u8, 0x6f, 0x70, 0x79] {
        Some(MemMode::Copy)
    } else if s == seq![0x72u8, 0x61, 0x6e, 0x64] {
        Some(MemMode::Random)
    } else {
        None
    }
}

/// Is `a` the text `t`?
pub fn text_is(a: &Vec<u8>, t: &[u8]) -> (r: bool)
    ensures
        r == (a@ == t@),
{
    if a.len() != t.len() {
        return false;
    }
    let mut i: usize = 0;
    while i < a.len()
        invariant
            a@.len() == t@.len(),
            i <= a@.len(),
            forall|k: int| 0 <= k < i ==> a@[k] == t@[k],
        decreases a@.len() - i,
    {
        if a[i] != t[i] {
            return false;
        }
        i += 1;
    }
    assert(a@ =~= t@);
    true
}

impl MemMode {
    /// The mode named `s` (see `spec_mem_mode`).
    ///
    /// Fails with `InvArgs` for any other name.
    pub fn parse(s: &Vec<u8>) -> (r: Result<MemMode, Code>)
        ensures
            r == match spec_mem_mode(s@) {
                Some(m) => Ok::<MemMode, Code>(m),
                None => Err(Code::InvArgs),
            },
    {
        let tcudram: [u8; 7] = [0x74, 0x63, 0x75, 0x64, 0x72, 0x61, 0x6d];
        let tcuspm: [u8; 6] = [0x74, 0x63, 0x75, 0x73, 0x70, 0x6d];
        let copy: [u8; 4] = [0x63, 0x6f, 0x70, 0x79];
        let rand: [u8; 4] = [0x72, 0x61, 0x6e, 0x64];
        assert(tcudram@ =~= seq![0x74u8, 0x63, 0x75, 0x64, 0x72, 0x61, 0x6d]);
        assert(tcuspm@ =~= seq![0x74u8, 0x63, 0x75, 0x73, 0x70, 0x6d]);
        assert(copy@ =~= seq![0x63u8, 0x6f, 0x70, 0x79]);
        assert(rand@ =~= seq![0x72u8, 0x61, 0x6e, 0x64]);
        if text_is(s, &tcudram) {
            Ok(MemMode::TcuDram)
        } else if text_is(s, &tcuspm) {
            Ok(MemMode::TcuSpm)
        } else if text_is(s, &copy) {
            Ok(MemMode::Copy)
        } else if text_is(s, &rand) {
            Ok(MemMode::Random)
        } else {
            Err(Code::InvArgs)
        }
    }
}

} // verus!
