//! Choosing among installed toolchain versions, and the search paths that
//! follow from the choice.

use vstd::prelude::*;
use vstd::string::*;
use vstd::array::*;
use crate::paths::{join, joined};
use crate::proj_config::{Arch, Platform};
use crate::text::{chars_of, texts};

verus! {

/// `c` is a decimal digit.
pub open spec fn is_digit(c: char) -> bool {
    '0' <= c && c <= '9'
}

/// `d` holds decimal digits only.
pub open spec fn all_digits(d: Seq<char>) -> bool {
    forall|i: int| 0 <= i < d.len() ==> is_digit(#[trigger] d[i])
}

/// The number that the decimal digits `d` write.
pub open spec fn value_of(d: Seq<char>) -> int
    decreases d.len(),
{
    if d.len() == 0 {
        0
    } else {
        value_of(d.drop_last()) * 10 + (d.last() as u32 - '0' as u32)
    }
}

/// The number that `s` writes: decimal digits, at least one, after an
/// optional `+`, with a value that fits 64 bits.
pub open spec fn number_of(s: Seq<char>) -> Option<u64> {
    let d = if s.len() > 0 && s[0] == '+' {
        s.subrange(1, s.len() as int)
    } else {
        s
    };
    if d.len() > 0 && all_digits(d) && value_of(d) <= u64::MAX {
        Some(value_of(d) as u64)
    } else {
        None
    }
}

proof fn lemma_prefix_value(d: Seq<char>, k: int)
    requires
        0 <= k <= d.len(),
        all_digits(d),
    ensures
        0 <= value_of(d.subrange(0, k)) <= value_of(d),
    decreases d.len(),
{
    if k < d.len() {
        assert(is_digit(d[d.len() - 1]));
        assert forall|i: int| 0 <= i < d.drop_last().len() implies is_digit(
            #[trigger] d.drop_last()[i],
        ) by {
            assert(is_digit(d[i]));
        }
        lemma_prefix_value(d.drop_last(), k);
        assert(d.drop_last().subrange(0, k) =~= d.subrange(0, k));
    } else if k > 0 {
        assert(d.subrange(0, k) =~= d);
        assert(is_digit(d[d.len() - 1]));
        assert forall|i: int| 0 <= i < d.drop_last().len() implies is_digit(
            #[trigger] d.drop_last()[i],
        ) by {
            assert(is_digit(d[i]));
        }
        lemma_prefix_value(d.drop_last(), k - 1);
        assert(d.drop_last().subrange(0, k - 1) =~= d.drop_last());
    } else {
        assert(d.subrange(0, k) =~= d);
    }
}

/// Reads the number written by the characters of `s` from `from` up to `to`.
pub fn parse_number(s: &Vec<char>, from: usize, to: usize) -> (r: Option<u64>)
    requires
        from <= to <= s@.len(),
    ensures
        r == number_of(s@.subrange(from as int, to as int)),
{
    let ghost whole = s@.subrange(from as int, to as int);
    let start: usize = if from < to && s[from] == '+' {
        from + 1
    } else {
        from
    };
    let ghost d = s@.subrange(start as int, to as int);
    proof {
        if start > from {
            assert(whole[0] == '+');
            assert(d =~= whole.subrange(1, whole.len() as int));
        } else {
            if whole.len() > 0 {
                assert(whole[0] == s@[from as int]);
            }
            assert(d =~= whole);
        }
    }
    if start == to {
        return None;
    }
    let mut acc: u64 = 0;
    let mut i: usize = start;
    assert(d.subrange(0, 0) =~= Seq::<char>::empty());
    while i < to
        invariant
            start <= i <= to <= s@.len(),
            from <= start,
            d == s@.subrange(start as int, to as int),
            number_of(s@.subrange(from as int, to as int)) == (if d.len() > 0 && all_digits(d)
                && value_of(d) <= u64::MAX {
                Some(value_of(d) as u64)
            } else {
                None
            }),
            all_digits(d.subrange(0, i - start)),
            acc == value_of(d.subrange(0, i - start)),
        decreases to - i,
    {
        let c = s[i];
        assert(d[i - start] == c);
        if !(c >= '0' && c <= '9') {
            assert(!is_digit(d[i - start]));
            return None;
        }
        let digit: u64 = (c as u32 - '0' as u32) as u64;
        let ghost next = d.subrange(0, i - start + 1);
        proof {
            assert(next.drop_last() =~= d.subrange(0, i - start));
            assert(next.last() == c);
            assert(value_of(next) == acc * 10 + digit);
            if all_digits(d) {
                lemma_prefix_value(d, i - start + 1);
            }
        }
        let scaled = match acc.checked_mul(10) {
            Some(v) => v,
            None => {
                return None;
            },
        };
        acc = match scaled.checked_add(digit) {
            Some(v) => v,
            None => {
                return None;
            },
        };
        i = i + 1;
        assert forall|k: int| 0 <= k < next.len() implies is_digit(#[trigger] next[k]) by {
            if k < next.len() - 1 {
                assert(next[k] == d.subrange(0, i - start - 1)[k]);
            }
        }
    }
    assert(d.subrange(0, to - start) =~= d);
    Some(acc)
}

/// The numbers between the dots of `s`, scanning from `i` with the
/// current component starting at `start`; `None` where a component is no number.
pub open spec fn components_from(s: Seq<char>, i: int, start: int) -> Option<Seq<u64>>
    decreases s.len() - i,
{
    if i < 0 || i >= s.len() {
        match number_of(s.subrange(start, s.len() as int)) {
            Some(v) => Some(seq![v]),
            None => None,
        }
    } else if s[i] == '.' {
        match number_of(s.subrange(start, i)) {
            Some(v) => match components_from(s, i + 1, i + 1) {
                Some(rest) => Some(seq![v] + rest),
                None => None,
            },
            None => None,
        }
    } else {
        components_from(s, i + 1, start)
    }
}

/// The version that `s` writes: exactly `n` numbers separated by dots.
pub open spec fn version_of(s: Seq<char>, n: nat) -> Option<Seq<u64>> {
    match components_from(s, 0, 0) {
        Some(v) => if v.len() == n {
            Some(v)
        } else {
            None
        },
        None => None,
    }
}

fn parse_components(version: &str) -> (r: Option<Vec<u64>>)
    ensures
        match r {
            Some(v) => components_from(version@, 0, 0) == Some(v@),
            None => components_from(version@, 0, 0).is_none(),
        },
{
    let s = chars_of(version);
    let n: usize = s.len();
    let mut out: Vec<u64> = Vec::new();
    let mut i: usize = 0;
    let mut start: usize = 0;
    while i < n
        invariant
            n == s@.len(),
            s@ == version@,
            start <= i <= n,
            components_from(s@, 0, 0) == (match components_from(s@, i as int, start as int) {
                Some(rest) => Some(out@ + rest),
                None => None,
            }),
        decreases n - i,
    {
        if s[i] == '.' {
            match parse_number(&s, start, i) {
                Some(v) => {
                    let ghost before = out@;
                    out.push(v);
                    proof {
                        match components_from(s@, i + 1, i + 1) {
                            Some(rest) => {
                                assert(before + (seq![v] + rest) =~= out@ + rest);
                            },
                            None => {},
                        }
                    }
                    start = i + 1;
                },
                None => {
                    return None;
                },
            }
        }
        i = i + 1;
    }
    match parse_number(&s, start, n) {
        Some(v) => {
            let ghost before = out@;
            out.push(v);
            assert(before + seq![v] =~= out@);
            Some(out)
        },
        None => None,
    }
}

/// Reads a version of exactly `N` numbers separated by dots.
pub fn parse_version<const N: usize>(version: &str) -> (r: Option<[u64; N]>)
    ensures
        match r {
            Some(a) => version_of(version@, N as nat) == Some(a@),
            None => version_of(version@, N as nat).is_none(),
        },
{
    match parse_components(version) {
        Some(v) => {
            if v.len() != N {
                return None;
            }
            let mut out: [u64; N] = array_fill_for_copy_types(0u64);
            let mut i: usize = 0;
            while i < N
                invariant
                    i <= N,
                    v@.len() == N,
                    out@.len() == N,
                    forall|k: int| 0 <= k < i ==> out@[k] == v@[k],
                decreases N - i,
            {
                out.set(i, v[i]);
                i = i + 1;
            }
            assert(out@ =~= v@);
            Some(out)
        },
        None => None,
    }
}

/// `a` comes after `b`: at the first place from `i` on where they differ,
/// `a` holds the greater number.
pub open spec fn newer_from(a: Seq<u64>, b: Seq<u64>, i: int) -> bool
    decreases a.len() - i,
{
    if i < 0 || i >= a.len() || i >= b.len() {
        false
    } else if a[i] != b[i] {
        a[i] > b[i]
    } else {
        newer_from(a, b, i + 1)
    }
}

/// Whether version `a` comes after version `b`.
pub fn version_newer<const N: usize>(a: &[u64; N], b: &[u64; N]) -> (r: bool)
    ensures
        r == newer_from(a@, b@, 0),
{
    let mut i: usize = 0;
    while i < N
        invariant
            i <= N,
            a@.len() == N,
            b@.len() == N,
            newer_from(a@, b@, 0) == newer_from(a@, b@, i as int),
        decreases N - i,
    {
        if a[i] != b[i] {
            return a[i] > b[i];
        }
        i = i + 1;
    }
    false
}

/// The newest of the versions that `names` write, where the last of equal
/// ones is as good as the first; `None` where none of them is a version.
pub open spec fn newest_of(names: Seq<Seq<char>>, n: nat) -> Option<Seq<u64>>
    decreases names.len(),
{
    if names.len() == 0 {
        None
    } else {
        let rest = newest_of(names.drop_last(), n);
        match version_of(names.last(), n) {
            None => rest,
            Some(v) => match rest {
                None => Some(v),
                Some(best) => if newer_from(best, v, 0) {
                    Some(best)
                } else {
                    Some(v)
                },
            },
        }
    }
}

/// The character of the digit `d`.
pub open spec fn digit_char(d: nat) -> char {
    if d == 0 {
        '0'
    } else if d == 1 {
        '1'
    } else if d == 2 {
        '2'
    } else if d == 3 {
        '3'
    } else if d == 4 {
        '4'
    } else if d == 5 {
        '5'
    } else if d == 6 {
        '6'
    } else if d == 7 {
        '7'
    } else if d == 8 {
        '8'
    } else {
        '9'
    }
}

/// `n` in decimal digits, without leading zeros.
pub open spec fn decimal_of(n: nat) -> Seq<char>
    decreases n,
{
    if n < 10 {
        seq![digit_char(n)]
    } else {
        decimal_of(n / 10).push(digit_char(n % 10))
    }
}

fn digit_text(d: u64) -> (r: &'static str)
    requires
        d < 10,
    ensures
        r@ == seq![digit_char(d as nat)],
{
    proof {
        reveal_strlit("0");
        reveal_strlit("1");
        reveal_strlit("2");
        reveal_strlit("3");
        reveal_strlit("4");
        reveal_strlit("5");
        reveal_strlit("6");
        reveal_strlit("7");
        reveal_strlit("8");
        reveal_strlit("9");
    }
    let r = if d == 0 {
        "0"
    } else if d == 1 {
        "1"
    } else if d == 2 {
        "2"
    } else if d == 3 {
        "3"
    } else if d == 4 {
        "4"
    } else if d == 5 {
        "5"
    } else if d == 6 {
        "6"
    } else if d == 7 {
        "7"
    } else if d == 8 {
        "8"
    } else {
        "9"
    };
    assert(r@ =~= seq![digit_char(d as nat)]);
    r
}

/// Writes `n` in decimal digits.
pub fn decimal(n: u64) -> (r: String)
    ensures
        r@ == decimal_of(n as nat),
    decreases n,
{
    if n < 10 {
        String::from_str(digit_text(n))
    } else {
        let mut out = decimal(n / 10);
        out.append(digit_text(n % 10));
        assert(out@ =~= decimal_of(n as nat));
        out
    }
}

/// The numbers of `v` in decimal, with a dot between each two.
pub open spec fn dotted(v: Seq<u64>) -> Seq<char>
    decreases v.len(),
{
    if v.len() == 0 {
        Seq::empty()
    } else if v.len() == 1 {
        decimal_of(v[0] as nat)
    } else {
        dotted(v.drop_last()) + seq!['.'] + decimal_of(v.last() as nat)
    }
}

/// The directory name of the newest version among `names`: of those names
/// that write a version of exactly `N` numbers, the one that comes last in
/// version order, written anew with dots.
pub fn newest_version<const N: usize>(names: &Vec<String>) -> (r: Option<String>)
    ensures
        match r {
            Some(name) => match newest_of(texts(names@), N as nat) {
                Some(v) => name@ == dotted(v),
                None => false,
            },
            None => newest_of(texts(names@), N as nat).is_none(),
        },
{
    let ghost all = texts(names@);
    let mut best: Option<[u64; N]> = None;
    let mut i: usize = 0;
    assert(all.subrange(0, 0) =~= Seq::<Seq<char>>::empty());
    while i < names.len()
        invariant
            i <= names@.len(),
            all == texts(names@),
            match best {
                Some(b) => newest_of(all.subrange(0, i as int), N as nat) == Some(b@),
                None => newest_of(all.subrange(0, i as int), N as nat).is_none(),
            },
        decreases names@.len() - i,
    {
        let parsed = parse_version::<N>(names[i].as_str());
        proof {
            let upto = all.subrange(0, i + 1);
            assert(upto.drop_last() =~= all.subrange(0, i as int));
            assert(upto.last() == names@[i as int]@);
        }
        match parsed {
            Some(v) => {
                match best {
                    Some(b) => {
                        if !version_newer(&b, &v) {
                            best = Some(v);
                        }
                    },
                    None => {
                        best = Some(v);
                    },
                }
            },
            None => {},
        }
        i = i + 1;
    }
    assert(all.subrange(0, i as int) =~= all);
    match best {
        Some(b) => {
            let mut name = String::new();
            let mut k: usize = 0;
            assert(b@.subrange(0, 0) =~= Seq::<u64>::empty());
            while k < N
                invariant
                    k <= N,
                    b@.len() == N,
                    name@ == dotted(b@.subrange(0, k as int)),
                decreases N - k,
            {
                proof {
                    reveal_strlit(".");
                    let upto = b@.subrange(0, k + 1);
                    assert(upto.drop_last() =~= b@.subrange(0, k as int));
                    assert(upto.last() == b@[k as int]);
                    assert("."@ =~= seq!['.']);
                }
                if k > 0 {
                    name.append(".");
                }
                let digits = decimal(b[k]);
                name.append(digits.as_str());
                k = k + 1;
            }
            assert(b@.subrange(0, N as int) =~= b@);
            Some(name)
        },
        None => None,
    }
}

/// The year that `name` writes, if it writes a number that fits 16 bits.
pub open spec fn year_of(name: Seq<char>) -> Option<u16> {
    match number_of(name) {
        Some(v) => if v <= u16::MAX {
            Some(v as u16)
        } else {
            None
        },
        None => None,
    }
}

/// The latest of the years that `names` write; `None` where none writes a year.
pub open spec fn latest_year(names: Seq<Seq<char>>) -> Option<u16>
    decreases names.len(),
{
    if names.len() == 0 {
        None
    } else {
        let rest = latest_year(names.drop_last());
        match (year_of(names.last()), rest) {
            (Some(y), Some(best)) => if y > best {
                Some(y)
            } else {
                Some(best)
            },
            (Some(y), None) => Some(y),
            (None, _) => rest,
        }
    }
}

/// Chooses the release year of the toolchain: the latest among the
/// directory names that are a year.
pub fn newest_year(names: &Vec<String>) -> (r: Option<u16>)
    ensures
        r == latest_year(texts(names@)),
{
    let ghost all = texts(names@);
    let mut best: Option<u16> = None;
    let mut i: usize = 0;
    assert(all.subrange(0, 0) =~= Seq::<Seq<char>>::empty());
    while i < names.len()
        invariant
            i <= names@.len(),
            all == texts(names@),
            best == latest_year(all.subrange(0, i as int)),
        decreases names@.len() - i,
    {
        let chars = chars_of(names[i].as_str());
        let parsed = parse_number(&chars, 0, chars.len());
        proof {
            let upto = all.subrange(0, i + 1);
            assert(upto.drop_last() =~= all.subrange(0, i as int));
            assert(upto.last() == names@[i as int]@);
            assert(chars@.subrange(0, chars@.len() as int) =~= names@[i as int]@);
        }
        match parsed {
            Some(v) => {
                if v <= 65535 {
                    let y: u16 = v as u16;
                    match best {
                        Some(b) => {
                            if y > b {
                                best = Some(y);
                            }
                        },
                        None => {
                            best = Some(y);
                        },
                    }
                }
            },
            None => {},
        }
        i = i + 1;
    }
    assert(all.subrange(0, i as int) =~= all);
    best
}

/// The edition that was created last, with its creation time: the first
/// of those created latest, or `Community` where none was created after
/// time 0.
pub open spec fn latest_edition(entries: Seq<(String, u64)>) -> (Seq<char>, u64)
    decreases entries.len(),
{
    if entries.len() == 0 {
        ("Community"@, 0u64)
    } else {
        let rest = latest_edition(entries.drop_last());
        if entries.last().1 > rest.1 {
            (entries.last().0@, entries.last().1)
        } else {
            rest
        }
    }
}

/// Chooses the edition of the toolchain among the directories given with
/// their creation times.
pub fn newest_edition(entries: &Vec<(String, u64)>) -> (r: String)
    ensures
        r@ == latest_edition(entries@).0,
{
    let mut edition = String::from_str("Community");
    let mut newest_time: u64 = 0;
    let mut i: usize = 0;
    assert(entries@.subrange(0, 0) =~= Seq::<(String, u64)>::empty());
    while i < entries.len()
        invariant
            i <= entries@.len(),
            edition@ == latest_edition(entries@.subrange(0, i as int)).0,
            newest_time == latest_edition(entries@.subrange(0, i as int)).1,
        decreases entries@.len() - i,
    {
        proof {
            let upto = entries@.subrange(0, i + 1);
            assert(upto.drop_last() =~= entries@.subrange(0, i as int));
            assert(upto.last() == entries@[i as int]);
        }
        if entries[i].1 > newest_time {
            newest_time = entries[i].1;
            edition = entries[i].0.clone();
        }
        i = i + 1;
    }
    assert(entries@.subrange(0, i as int) =~= entries@);
    edition
}

/// What was chosen among the installed toolchains.
#[derive(Clone, Debug)]
pub struct ToolchainChoice {
    /// The directory that holds the toolchain and the platform kits.
    pub program_files: String,
    pub year: u16,
    pub edition: String,
    pub msvc_version: String,
    pub sdk_include_version: String,
    pub sdk_lib_version: String,
    pub sdk_bin_version: String,
}

/// Where the tools, headers and libraries of a toolchain lie.
#[derive(Clone, Debug)]
pub struct ToolchainPaths {
    pub debugger_path: String,
    pub include_paths: Vec<String>,
    pub lib_paths: Vec<String>,
    pub bin_paths: Vec<String>,
}

/// The name of an architecture in the toolchain's directories.
pub open spec fn arch_dir(arch: Arch) -> Seq<char> {
    match arch {
        Arch::X86 => "x86"@,
        Arch::X64 => "x64"@,
    }
}

/// The architecture of a machine with pointers of `width` bits.
pub open spec fn arch_of_width(width: u32) -> Arch {
    if width == 64 {
        Arch::X64
    } else {
        Arch::X86
    }
}

impl ToolchainChoice {
    /// The directory of the chosen edition.
    pub open spec fn edition_dir(&self) -> Seq<char> {
        joined(
            joined(
                joined(self.program_files@, "Microsoft Visual Studio"@),
                decimal_of(self.year as nat),
            ),
            self.edition@,
        )
    }

    /// The directory of the chosen compiler version.
    pub open spec fn version_dir(&self) -> Seq<char> {
        joined(
            joined(joined(joined(self.edition_dir(), "VC"@), "Tools"@), "MSVC"@),
            self.msvc_version@,
        )
    }

    /// The directory of the platform kits.
    pub open spec fn kits_dir(&self) -> Seq<char> {
        joined(joined(self.program_files@, "Windows Kits"@), "10"@)
    }

    /// Where the debugger lies.
    pub open spec fn debugger(&self) -> Seq<char> {
        joined(joined(joined(self.edition_dir(), "Common7"@), "IDE"@), "devenv.exe"@)
    }

    /// The directories that are searched for headers.
    pub open spec fn includes(&self) -> Seq<Seq<char>> {
        let kit = joined(joined(self.kits_dir(), "Include"@), self.sdk_include_version@);
        seq![
            joined(joined(self.version_dir(), "ATLMFC"@), "include"@),
            joined(self.version_dir(), "include"@),
            joined(kit, "ucrt"@),
            joined(kit, "shared"@),
            joined(kit, "um"@),
            joined(kit, "winrt"@),
        ]
    }

    /// The directories that are searched for libraries when building for `target`.
    pub open spec fn libs(&self, target: Arch) -> Seq<Seq<char>> {
        let kit = joined(joined(self.kits_dir(), "Lib"@), self.sdk_lib_version@);
        seq![
            joined(joined(joined(self.version_dir(), "ATLMFC"@), "lib"@), arch_dir(target)),
            joined(joined(self.version_dir(), "lib"@), arch_dir(target)),
            joined(joined(kit, "ucrt"@), arch_dir(target)),
            joined(joined(kit, "um"@), arch_dir(target)),
        ]
    }

    /// The directories of the tools that run on `host` and build for `target`.
    pub open spec fn bins(&self, host: Arch, target: Arch) -> Seq<Seq<char>> {
        seq![
            joined(
                joined(joined(self.version_dir(), "bin"@), "Host"@ + arch_dir(host)),
                arch_dir(target),
            ),
            joined(
                joined(joined(self.kits_dir(), "bin"@), self.sdk_bin_version@),
                arch_dir(host),
            ),
        ]
    }
}

fn arch_name(arch: Arch) -> (r: &'static str)
    ensures
        r@ == arch_dir(arch),
{
    match arch {
        Arch::X86 => "x86",
        Arch::X64 => "x64",
    }
}

impl ToolchainPaths {
    /// The search paths of the chosen toolchain for building for `target`
    /// on a host with pointers of `host_pointer_width` bits.
    pub fn find(target: Platform, host_pointer_width: u32, choice: &ToolchainChoice) -> (r:
        ToolchainPaths)
        requires
            host_pointer_width == 32 || host_pointer_width == 64,
        ensures
            r.debugger_path@ == choice.debugger(),
            texts(r.include_paths@) == choice.includes(),
            texts(r.lib_paths@) == choice.libs(target.arch_of()),
            texts(r.bin_paths@) == choice.bins(
                arch_of_width(host_pointer_width),
                target.arch_of(),
            ),
    {
        let target_dir = arch_name(target.architecture());
        let host_dir = if host_pointer_width == 64 {
            arch_name(Arch::X64)
        } else {
            arch_name(Arch::X86)
        };
        let studio = join(choice.program_files.as_str(), "Microsoft Visual Studio");
        let year = join(studio.as_str(), decimal(choice.year as u64).as_str());
        let edition = join(year.as_str(), choice.edition.as_str());
        let vc = join(edition.as_str(), "VC");
        let tools = join(vc.as_str(), "Tools");
        let msvc = join(tools.as_str(), "MSVC");
        let version = join(msvc.as_str(), choice.msvc_version.as_str());

        let bin = join(version.as_str(), "bin");
        let host_bin = join(bin.as_str(), crate::text::concat2("Host", host_dir).as_str());
        let mut bin_paths: Vec<String> = Vec::new();
        bin_paths.push(join(host_bin.as_str(), target_dir));

        let atlmfc = join(version.as_str(), "ATLMFC");
        let mut include_paths: Vec<String> = Vec::new();
        include_paths.push(join(atlmfc.as_str(), "include"));
        let mut lib_paths: Vec<String> = Vec::new();
        lib_paths.push(join(join(atlmfc.as_str(), "lib").as_str(), target_dir));
        include_paths.push(join(version.as_str(), "include"));
        lib_paths.push(join(join(version.as_str(), "lib").as_str(), target_dir));

        let common = join(edition.as_str(), "Common7");
        let ide = join(common.as_str(), "IDE");
        let debugger_path = join(ide.as_str(), "devenv.exe");

        let kits = join(choice.program_files.as_str(), "Windows Kits");
        let win10 = join(kits.as_str(), "10");
        let kit_headers = join(
            join(win10.as_str(), "Include").as_str(),
            choice.sdk_include_version.as_str(),
        );
        include_paths.push(join(kit_headers.as_str(), "ucrt"));
        include_paths.push(join(kit_headers.as_str(), "shared"));
        include_paths.push(join(kit_headers.as_str(), "um"));
        include_paths.push(join(kit_headers.as_str(), "winrt"));

        let lib = join(join(win10.as_str(), "Lib").as_str(), choice.sdk_lib_version.as_str());
        lib_paths.push(join(join(lib.as_str(), "ucrt").as_str(), target_dir));
        lib_paths.push(join(join(lib.as_str(), "um").as_str(), target_dir));

        let kit_bin = join(join(win10.as_str(), "bin").as_str(), choice.sdk_bin_version.as_str());
        bin_paths.push(join(kit_bin.as_str(), host_dir));

        assert(texts(include_paths@) =~= choice.includes());
        assert(texts(lib_paths@) =~= choice.libs(target.arch_of()));
        assert(texts(bin_paths@) =~= choice.bins(
            arch_of_width(host_pointer_width),
            target.arch_of(),
        ));
        ToolchainPaths { debugger_path, include_paths, lib_paths, bin_paths }
    }
}

} // verus!
