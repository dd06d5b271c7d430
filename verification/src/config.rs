//! The benchmark configuration shared by every method: its defaults, the
//! command-line grammar that sets it, the usage text, and the argument list
//! that hands a configuration on to a child process.

use vstd::prelude::*;

use crate::number_text::{
    decimal_text, format_decimal, lemma_decimal_round_trip, parse_unsigned, parse_unsigned_spec,
};

verus! {

/// How a report is printed.
#[derive(Clone, Copy, Debug, PartialEq, Eq, Structural)]
pub enum OutputFormat {
    Text,
    Json,
}

/// Which side of the ping-pong a process plays.
#[derive(Clone, Copy, Debug, PartialEq, Eq, Structural)]
pub enum ProcessRole {
    Parent,
    Child,
}

/// What one benchmark run measures and how it reports.
#[derive(Clone, Copy, Debug, PartialEq, Eq, Structural)]
pub struct BenchmarkConfig {
    pub message_count: usize,
    pub message_size: usize,
    pub warmup_count: usize,
    pub trials: usize,
    pub output_format: OutputFormat,
    pub role: ProcessRole,
}

/// The numeric settings that a flag can set.
#[derive(Clone, Copy, Debug, PartialEq, Eq, Structural)]
pub enum NumericField {
    MessageCount,
    MessageSize,
    WarmupCount,
    Trials,
}

/// What an argument in flag position asks for.
#[derive(Clone, Copy, Debug, PartialEq, Eq, Structural)]
pub enum FlagKind {
    Numeric(NumericField),
    Format,
    Role,
    Help,
    Unknown,
}

/// The option lines of the usage text, after the program name.
pub const USAGE_OPTIONS: &'static str = " [options]\n\nOptions:\n  -c, --message-count <N>  Number of measured round trips (default: 1000)\n  -s, --message-size <N>   Payload size in bytes (default: 1000)\n  -w, --warmup-count <N>   Warmup iterations before timing (default: 100)\n  -t, --trials <N>         Number of benchmark trials (default: 3)\n      --format <FORMAT>    Output format: text | json (default: text)\n      --role <ROLE>        Internal process role: parent | child";

/// The program name used in the usage text when the executable's own name is
/// unknown or empty.
pub const DEFAULT_PROGRAM_NAME: &'static str = "ipc-bench";

pub open spec fn default_config() -> BenchmarkConfig {
    BenchmarkConfig {
        message_count: 1000,
        message_size: 1000,
        warmup_count: 100,
        trials: 3,
        output_format: OutputFormat::Text,
        role: ProcessRole::Parent,
    }
}

/// The views of a list of strings.
pub open spec fn texts(v: Seq<String>) -> Seq<Seq<char>> {
    v.map_values(|s: String| s@)
}

pub open spec fn flag_kind(a: Seq<char>) -> FlagKind {
    if a == "-c"@ || a == "--message-count"@ {
        FlagKind::Numeric(NumericField::MessageCount)
    } else if a == "-s"@ || a == "--message-size"@ {
        FlagKind::Numeric(NumericField::MessageSize)
    } else if a == "-w"@ || a == "--warmup-count"@ {
        FlagKind::Numeric(NumericField::WarmupCount)
    } else if a == "-t"@ || a == "--trials"@ {
        FlagKind::Numeric(NumericField::Trials)
    } else if a == "--format"@ {
        FlagKind::Format
    } else if a == "--role"@ {
        FlagKind::Role
    } else if a == "--help"@ || a == "-h"@ {
        FlagKind::Help
    } else {
        FlagKind::Unknown
    }
}

pub open spec fn field_label(f: NumericField) -> Seq<char> {
    match f {
        NumericField::MessageCount => "message count"@,
        NumericField::MessageSize => "message size"@,
        NumericField::WarmupCount => "warmup count"@,
        NumericField::Trials => "trials"@,
    }
}

pub open spec fn with_field(c: BenchmarkConfig, f: NumericField, v: usize) -> BenchmarkConfig {
    match f {
        NumericField::MessageCount => BenchmarkConfig { message_count: v, ..c },
        NumericField::MessageSize => BenchmarkConfig { message_size: v, ..c },
        NumericField::WarmupCount => BenchmarkConfig { warmup_count: v, ..c },
        NumericField::Trials => BenchmarkConfig { trials: v, ..c },
    }
}

pub open spec fn usage_text(program: Seq<char>) -> Seq<char> {
    "Usage: "@ + program + USAGE_OPTIONS@
}

pub open spec fn missing_value_text(flag: Seq<char>) -> Seq<char> {
    "missing value for "@ + flag
}

/// The value that follows the flag at `i`, read as a count.
pub open spec fn numeric_value(args: Seq<Seq<char>>, i: int, flag: Seq<char>, label: Seq<char>) -> Result<int, Seq<char>> {
    if i + 1 >= args.len() {
        Err(missing_value_text(flag))
    } else {
        match parse_unsigned_spec(args[i + 1], usize::MAX as int) {
            Ok(v) => Ok(v),
            Err(_) => Err("invalid "@ + label + " `"@ + args[i + 1] + "`"@),
        }
    }
}

/// The checks made once every argument has been read.
pub open spec fn finish_config(c: BenchmarkConfig) -> Result<BenchmarkConfig, Seq<char>> {
    if c.message_count == 0 {
        Err("message count must be greater than zero"@)
    } else if c.trials == 0 {
        Err("trials must be greater than zero"@)
    } else {
        Ok(c)
    }
}

/// Reads the arguments from position `i` on into `c`; the result is the
/// configuration or the text of the first problem met.
pub open spec fn parse_from(args: Seq<Seq<char>>, i: int, c: BenchmarkConfig, program: Seq<char>) -> Result<BenchmarkConfig, Seq<char>>
    decreases args.len() - i,
{
    if i < 0 || i >= args.len() {
        finish_config(c)
    } else {
        let a = args[i];
        match flag_kind(a) {
            FlagKind::Numeric(f) => match numeric_value(args, i, a, field_label(f)) {
                Ok(v) => parse_from(args, i + 2, with_field(c, f, v as usize), program),
                Err(m) => Err(m),
            },
            FlagKind::Format => if i + 1 >= args.len() {
                Err(missing_value_text(a))
            } else if args[i + 1] == "text"@ {
                parse_from(args, i + 2, BenchmarkConfig { output_format: OutputFormat::Text, ..c }, program)
            } else if args[i + 1] == "json"@ {
                parse_from(args, i + 2, BenchmarkConfig { output_format: OutputFormat::Json, ..c }, program)
            } else {
                Err("invalid output format `"@ + args[i + 1] + "`; expected `text` or `json`"@)
            },
            FlagKind::Role => if i + 1 >= args.len() {
                Err(missing_value_text(a))
            } else if args[i + 1] == "parent"@ {
                parse_from(args, i + 2, BenchmarkConfig { role: ProcessRole::Parent, ..c }, program)
            } else if args[i + 1] == "child"@ {
                parse_from(args, i + 2, BenchmarkConfig { role: ProcessRole::Child, ..c }, program)
            } else {
                Err("invalid process role `"@ + args[i + 1] + "`; expected `parent` or `child`"@)
            },
            FlagKind::Help => Err(usage_text(program)),
            FlagKind::Unknown => Err("unrecognized argument `"@ + a + "`\n\n"@ + usage_text(program)),
        }
    }
}

/// The configuration that the arguments give, starting from the defaults, or
/// the text of the first problem with them; `program` is the name shown in
/// the usage text.
pub open spec fn parse_config(args: Seq<Seq<char>>, program: Seq<char>) -> Result<BenchmarkConfig, Seq<char>> {
    parse_from(args, 0, default_config(), program)
}

pub open spec fn format_text(f: OutputFormat) -> Seq<char> {
    match f {
        OutputFormat::Text => "text"@,
        OutputFormat::Json => "json"@,
    }
}

pub open spec fn role_text(r: ProcessRole) -> Seq<char> {
    match r {
        ProcessRole::Parent => "parent"@,
        ProcessRole::Child => "child"@,
    }
}

/// The arguments that hand configuration `c` to a process playing `role`.
pub open spec fn role_args(c: BenchmarkConfig, role: ProcessRole) -> Seq<Seq<char>> {
    seq![
        "--message-count"@,
        decimal_text(c.message_count as nat),
        "--message-size"@,
        decimal_text(c.message_size as nat),
        "--warmup-count"@,
        decimal_text(c.warmup_count as nat),
        "--trials"@,
        decimal_text(c.trials as nat),
        "--format"@,
        format_text(c.output_format),
        "--role"@,
        role_text(role),
    ]
}

/// The long flags that `role_args` writes are read back as the settings they
/// name, and the format and role words are told apart.
proof fn lemma_written_words()
    ensures
        flag_kind("--message-count"@) == FlagKind::Numeric(NumericField::MessageCount),
        flag_kind("--message-size"@) == FlagKind::Numeric(NumericField::MessageSize),
        flag_kind("--warmup-count"@) == FlagKind::Numeric(NumericField::WarmupCount),
        flag_kind("--trials"@) == FlagKind::Numeric(NumericField::Trials),
        flag_kind("--format"@) == FlagKind::Format,
        flag_kind("--role"@) == FlagKind::Role,
        "json"@ != "text"@,
        "child"@ != "parent"@,
{
    reveal_strlit("-c");
    reveal_strlit("--message-count");
    reveal_strlit("-s");
    reveal_strlit("--message-size");
    reveal_strlit("-w");
    reveal_strlit("--warmup-count");
    reveal_strlit("-t");
    reveal_strlit("--trials");
    reveal_strlit("--format");
    reveal_strlit("--role");
    reveal_strlit("text");
    reveal_strlit("json");
    reveal_strlit("parent");
    reveal_strlit("child");
    assert("--message-size"@.len() != "--message-count"@.len());
    assert("--warmup-count"@.len() != "--message-count"@.len());
    assert("--warmup-count"@[2] != "--message-size"@[2]);
    assert("--trials"@.len() != "--message-count"@.len());
    assert("--trials"@.len() != "--message-size"@.len());
    assert("--trials"@.len() != "--warmup-count"@.len());
    assert("--format"@.len() != "--message-count"@.len());
    assert("--format"@.len() != "--message-size"@.len());
    assert("--format"@.len() != "--warmup-count"@.len());
    assert("--format"@[2] != "--trials"@[2]);
    assert("--role"@.len() != "--message-count"@.len());
    assert("--role"@.len() != "--message-size"@.len());
    assert("--role"@.len() != "--warmup-count"@.len());
    assert("--role"@.len() != "--trials"@.len());
    assert("--role"@.len() != "--format"@.len());
    assert("json"@[0] != "text"@[0]);
    assert("child"@.len() != "parent"@.len());
}

/// Law: the arguments written for a configuration read back as that
/// configuration with the role they name, whenever the configuration is one
/// that parsing accepts (a message count and a trial count above zero).
pub proof fn lemma_role_args_round_trip(c: BenchmarkConfig, role: ProcessRole, program: Seq<char>)
    requires
        c.message_count > 0,
        c.trials > 0,
    ensures
        parse_config(role_args(c, role), program) == Ok::<BenchmarkConfig, Seq<char>>(
            BenchmarkConfig { role, ..c },
        ),
{
    let a = role_args(c, role);
    let d = default_config();
    lemma_written_words();
    lemma_decimal_round_trip(c.message_count as nat, usize::MAX as int);
    lemma_decimal_round_trip(c.message_size as nat, usize::MAX as int);
    lemma_decimal_round_trip(c.warmup_count as nat, usize::MAX as int);
    lemma_decimal_round_trip(c.trials as nat, usize::MAX as int);
    let c1 = BenchmarkConfig { message_count: c.message_count, ..d };
    let c2 = BenchmarkConfig { message_size: c.message_size, ..c1 };
    let c3 = BenchmarkConfig { warmup_count: c.warmup_count, ..c2 };
    let c4 = BenchmarkConfig { trials: c.trials, ..c3 };
    let c5 = BenchmarkConfig { output_format: c.output_format, ..c4 };
    let c6 = BenchmarkConfig { role: role, ..c5 };
    assert(parse_from(a, 12, c6, program) == finish_config(c6));
    assert(parse_from(a, 10, c5, program) == parse_from(a, 12, c6, program));
    assert(parse_from(a, 8, c4, program) == parse_from(a, 10, c5, program));
    assert(parse_from(a, 6, c3, program) == parse_from(a, 8, c4, program));
    assert(parse_from(a, 4, c2, program) == parse_from(a, 6, c3, program));
    assert(parse_from(a, 2, c1, program) == parse_from(a, 4, c2, program));
    assert(parse_from(a, 0, d, program) == parse_from(a, 2, c1, program));
    assert(c6 == BenchmarkConfig { role, ..c });
}

/// Reading arguments that succeed on `a` from position `i` on reads `a`
/// followed by `b` the same way up to the end of `a`: the configuration
/// reached there, `cm`, is the one `a` alone ends with.
proof fn lemma_parse_prefix(a: Seq<Seq<char>>, b: Seq<Seq<char>>, i: int, c0: BenchmarkConfig, program: Seq<char>) -> (cm: BenchmarkConfig)
    requires
        0 <= i <= a.len(),
        parse_from(a, i, c0, program) is Ok,
    ensures
        parse_from(a, i, c0, program) == finish_config(cm),
        parse_from(a + b, i, c0, program) == parse_from(a + b, a.len() as int, cm, program),
    decreases a.len() - i,
{
    let ab = a + b;
    if i == a.len() {
        c0
    } else {
        let x = a[i];
        assert(ab[i] == x);
        match flag_kind(x) {
            FlagKind::Numeric(f) => {
                assert(i + 1 < a.len());
                assert(ab[i + 1] == a[i + 1]);
                let v = numeric_value(a, i, x, field_label(f))->Ok_0;
                assert(numeric_value(ab, i, x, field_label(f)) == numeric_value(a, i, x, field_label(f)));
                lemma_parse_prefix(a, b, i + 2, with_field(c0, f, v as usize), program)
            },
            FlagKind::Format => {
                assert(i + 1 < a.len());
                assert(ab[i + 1] == a[i + 1]);
                if a[i + 1] == "text"@ {
                    lemma_parse_prefix(a, b, i + 2, BenchmarkConfig { output_format: OutputFormat::Text, ..c0 }, program)
                } else {
                    lemma_parse_prefix(a, b, i + 2, BenchmarkConfig { output_format: OutputFormat::Json, ..c0 }, program)
                }
            },
            FlagKind::Role => {
                assert(i + 1 < a.len());
                assert(ab[i + 1] == a[i + 1]);
                if a[i + 1] == "parent"@ {
                    lemma_parse_prefix(a, b, i + 2, BenchmarkConfig { role: ProcessRole::Parent, ..c0 }, program)
                } else {
                    lemma_parse_prefix(a, b, i + 2, BenchmarkConfig { role: ProcessRole::Child, ..c0 }, program)
                }
            },
            _ => c0,
        }
    }
}

/// Law: a count flag given again after arguments that are accepted replaces
/// that one setting and leaves every other one as it was (provided the new
/// value keeps the message count and the trial count above zero).
pub proof fn lemma_later_count_flag_overrides(
    a: Seq<Seq<char>>,
    flag: Seq<char>,
    value: Seq<char>,
    f: NumericField,
    n: int,
    program: Seq<char>,
)
    requires
        parse_config(a, program) is Ok,
        flag_kind(flag) == FlagKind::Numeric(f),
        parse_unsigned_spec(value, usize::MAX as int) == Ok::<int, crate::number_text::ParseIntFailure>(n),
        f == NumericField::MessageCount ==> n > 0,
        f == NumericField::Trials ==> n > 0,
    ensures
        parse_config(a + seq![flag, value], program) == Ok::<BenchmarkConfig, Seq<char>>(
            with_field(parse_config(a, program)->Ok_0, f, n as usize),
        ),
{
    let b = seq![flag, value];
    let ab = a + b;
    let c = parse_config(a, program)->Ok_0;
    let cm = lemma_parse_prefix(a, b, 0, default_config(), program);
    assert(cm == c);
    let k = a.len() as int;
    assert(ab[k] == flag);
    assert(ab[k + 1] == value);
    assert(numeric_value(ab, k, flag, field_label(f)) == Ok::<int, Seq<char>>(n));
    assert(parse_from(ab, k + 2, with_field(c, f, n as usize), program) == finish_config(
        with_field(c, f, n as usize),
    ));
}

/// Law: a numeric flag at the end of the arguments sets exactly its own
/// setting and nothing else: `-c`/`--message-count` the message count,
/// `-s`/`--message-size` the message size, `-w`/`--warmup-count` the warmup
/// count, `-t`/`--trials` the trials; every other setting, the output format
/// and the role among them, keeps the value the earlier arguments gave it.
pub proof fn lemma_numeric_flag_sets_only_its_setting(
    a: Seq<Seq<char>>,
    flag: Seq<char>,
    value: Seq<char>,
    n: int,
    program: Seq<char>,
)
    requires
        parse_config(a, program) is Ok,
        flag == "-c"@ || flag == "--message-count"@ || flag == "-s"@ || flag == "--message-size"@
            || flag == "-w"@ || flag == "--warmup-count"@ || flag == "-t"@ || flag == "--trials"@,
        parse_unsigned_spec(value, usize::MAX as int) == Ok::<int, crate::number_text::ParseIntFailure>(n),
        flag == "-c"@ || flag == "--message-count"@ || flag == "-t"@ || flag == "--trials"@ ==> n > 0,
    ensures
        parse_config(a + seq![flag, value], program) is Ok,
        ({
            let c = parse_config(a, program)->Ok_0;
            let c2 = parse_config(a + seq![flag, value], program)->Ok_0;
            let count = flag == "-c"@ || flag == "--message-count"@;
            let size = flag == "-s"@ || flag == "--message-size"@;
            let warmup = flag == "-w"@ || flag == "--warmup-count"@;
            let trials = flag == "-t"@ || flag == "--trials"@;
            &&& c2.output_format == c.output_format
            &&& c2.role == c.role
            &&& c2.message_count == (if count { n } else { c.message_count as int })
            &&& c2.message_size == (if size { n } else { c.message_size as int })
            &&& c2.warmup_count == (if warmup { n } else { c.warmup_count as int })
            &&& c2.trials == (if trials { n } else { c.trials as int })
        }),
{
    reveal_strlit("-c");
    reveal_strlit("--message-count");
    reveal_strlit("-s");
    reveal_strlit("--message-size");
    reveal_strlit("-w");
    reveal_strlit("--warmup-count");
    reveal_strlit("-t");
    reveal_strlit("--trials");
    assert(flag.len() >= 2);
    if flag.len() == 2 {
        assert(flag[1] == 'c' || flag[1] == 's' || flag[1] == 'w' || flag[1] == 't');
    } else if flag.len() > 10 {
        assert(flag[2] == 'm' || flag[2] == 'w');
        assert(flag[10] == 'c' || flag[10] == 's' || flag[10] == 'o');
    }
    let f = if flag == "-c"@ || flag == "--message-count"@ {
        NumericField::MessageCount
    } else if flag == "-s"@ || flag == "--message-size"@ {
        NumericField::MessageSize
    } else if flag == "-w"@ || flag == "--warmup-count"@ {
        NumericField::WarmupCount
    } else {
        NumericField::Trials
    };
    assert(flag_kind(flag) == FlagKind::Numeric(f));
    crate::number_text::lemma_parse_unsigned_bound(value, usize::MAX as int);
    assert(n as usize == n);
    lemma_later_count_flag_overrides(a, flag, value, f, n, program);
}

/// Law: `--format` or `--role` given again after arguments that are accepted
/// replaces the output format or the role and leaves every other setting as
/// it was.
pub proof fn lemma_later_choice_flag_overrides(a: Seq<Seq<char>>, flag: Seq<char>, value: Seq<char>, program: Seq<char>)
    requires
        parse_config(a, program) is Ok,
        (flag == "--format"@ && (value == "text"@ || value == "json"@)) || (flag == "--role"@ && (
        value == "parent"@ || value == "child"@)),
    ensures
        parse_config(a + seq![flag, value], program) == Ok::<BenchmarkConfig, Seq<char>>(
            if flag == "--format"@ {
                BenchmarkConfig {
                    output_format: if value == "json"@ {
                        OutputFormat::Json
                    } else {
                        OutputFormat::Text
                    },
                    ..parse_config(a, program)->Ok_0
                }
            } else {
                BenchmarkConfig {
                    role: if value == "child"@ {
                        ProcessRole::Child
                    } else {
                        ProcessRole::Parent
                    },
                    ..parse_config(a, program)->Ok_0
                }
            },
        ),
{
    lemma_written_words();
    let b = seq![flag, value];
    let ab = a + b;
    let c = parse_config(a, program)->Ok_0;
    let cm = lemma_parse_prefix(a, b, 0, default_config(), program);
    assert(cm == c);
    let k = a.len() as int;
    assert(ab[k] == flag);
    assert(ab[k + 1] == value);
    assert(ab.len() == k + 2);
    assert("--format"@ != "--role"@);
    if flag == "--format"@ {
        assert(flag_kind(flag) == FlagKind::Format);
        let o = if value == "json"@ { OutputFormat::Json } else { OutputFormat::Text };
        let c2 = BenchmarkConfig { output_format: o, ..c };
        assert(parse_from(ab, k, c, program) == parse_from(ab, k + 2, c2, program));
        assert(parse_from(ab, k + 2, c2, program) == finish_config(c2));
    } else {
        assert(flag_kind(flag) == FlagKind::Role);
        let r = if value == "child"@ { ProcessRole::Child } else { ProcessRole::Parent };
        let c2 = BenchmarkConfig { role: r, ..c };
        assert(parse_from(ab, k, c, program) == parse_from(ab, k + 2, c2, program));
        assert(parse_from(ab, k + 2, c2, program) == finish_config(c2));
    }
}

/// Law: without arguments the configuration is the default one.
pub proof fn lemma_no_args_give_defaults(program: Seq<char>)
    ensures
        parse_config(Seq::empty(), program) == Ok::<BenchmarkConfig, Seq<char>>(default_config()),
{
}

/// Whether `s` holds exactly the text `lit`.
fn is_text(s: &String, lit: &str) -> (r: bool)
    ensures
        r == (s@ == lit@),
{
    let t = String::from_str(lit);
    s.eq(&t)
}

fn concat2(a: &str, b: &str) -> (r: String)
    ensures
        r@ == a@ + b@,
{
    let mut r = String::from_str(a);
    r.append(b);
    r
}

fn concat3(a: &str, b: &str, c: &str) -> (r: String)
    ensures
        r@ == a@ + b@ + c@,
{
    let mut r = String::from_str(a);
    r.append(b);
    r.append(c);
    r
}

/// Names the flag that an argument is.
pub fn classify_flag(a: &String) -> (k: FlagKind)
    ensures
        k == flag_kind(a@),
{
    if is_text(a, "-c") || is_text(a, "--message-count") {
        FlagKind::Numeric(NumericField::MessageCount)
    } else if is_text(a, "-s") || is_text(a, "--message-size") {
        FlagKind::Numeric(NumericField::MessageSize)
    } else if is_text(a, "-w") || is_text(a, "--warmup-count") {
        FlagKind::Numeric(NumericField::WarmupCount)
    } else if is_text(a, "-t") || is_text(a, "--trials") {
        FlagKind::Numeric(NumericField::Trials)
    } else if is_text(a, "--format") {
        FlagKind::Format
    } else if is_text(a, "--role") {
        FlagKind::Role
    } else if is_text(a, "--help") || is_text(a, "-h") {
        FlagKind::Help
    } else {
        FlagKind::Unknown
    }
}

impl NumericField {
    /// The name of the setting, as error texts show it.
    pub fn label(&self) -> (r: &'static str)
        ensures
            r@ == field_label(*self),
    {
        match self {
            NumericField::MessageCount => "message count",
            NumericField::MessageSize => "message size",
            NumericField::WarmupCount => "warmup count",
            NumericField::Trials => "trials",
        }
    }
}

impl Default for BenchmarkConfig {
    fn default() -> (r: Self)
        ensures
            r == default_config(),
    {
        BenchmarkConfig {
            message_count: 1_000,
            message_size: 1_000,
            warmup_count: 100,
            trials: 3,
            output_format: OutputFormat::Text,
            role: ProcessRole::Parent,
        }
    }
}

/// The name shown in the usage text: the executable's file stem when it is
/// known and not empty, `ipc-bench` otherwise.
pub fn program_name_or_default(stem: Option<String>) -> (r: String)
    ensures
        r@ == (match stem {
            Some(s) => if s@.len() > 0 { s@ } else { DEFAULT_PROGRAM_NAME@ },
            None => DEFAULT_PROGRAM_NAME@,
        }),
{
    match stem {
        Some(s) => {
            if s.as_str().unicode_len() > 0 {
                s
            } else {
                String::from_str(DEFAULT_PROGRAM_NAME)
            }
        },
        None => String::from_str(DEFAULT_PROGRAM_NAME),
    }
}

impl BenchmarkConfig {
    /// The configuration with setting `f` replaced by `v`.
    pub fn with_value(self, f: NumericField, v: usize) -> (r: Self)
        ensures
            r == with_field(self, f, v),
    {
        match f {
            NumericField::MessageCount => BenchmarkConfig { message_count: v, ..self },
            NumericField::MessageSize => BenchmarkConfig { message_size: v, ..self },
            NumericField::WarmupCount => BenchmarkConfig { warmup_count: v, ..self },
            NumericField::Trials => BenchmarkConfig { trials: v, ..self },
        }
    }

    /// Reads a configuration from command-line arguments, starting from the
    /// defaults. Fails with the text of the first problem: a flag without
    /// its value, a value that is not a count or not a known format or role,
    /// `--help` (the usage text), an unknown argument, or a message count or
    /// trial count of zero. `program_name` is the name the usage text shows.
    pub fn from_args(args: Vec<String>, program_name: &str) -> (r: Result<Self, String>)
        ensures
            match r {
                Ok(c) => parse_config(texts(args@), program_name@) == Ok::<BenchmarkConfig, Seq<char>>(c),
                Err(m) => parse_config(texts(args@), program_name@) == Err::<BenchmarkConfig, Seq<char>>(m@),
            },
    {
        let ghost a = texts(args@);
        let mut config = Self::default();
        let n = args.len();
        let mut index: usize = 0;
        while index < n
            invariant
                n == args.len(),
                a == texts(args@),
                index <= n,
                parse_config(a, program_name@) == parse_from(a, index as int, config, program_name@),
            decreases n - index,
        {
            let current = &args[index];
            assert(a[index as int] == current@);
            match classify_flag(current) {
                FlagKind::Numeric(f) => {
                    let v = Self::parse_usize(&args, &mut index, current, f.label())?;
                    config = config.with_value(f, v);
                },
                FlagKind::Format => {
                    index += 1;
                    if index >= n {
                        return Err(concat2("missing value for ", current.as_str()));
                    }
                    let value = &args[index];
                    assert(a[index as int] == value@);
                    if is_text(value, "text") {
                        config = BenchmarkConfig { output_format: OutputFormat::Text, ..config };
                    } else if is_text(value, "json") {
                        config = BenchmarkConfig { output_format: OutputFormat::Json, ..config };
                    } else {
                        return Err(
                            concat3(
                                "invalid output format `",
                                value.as_str(),
                                "`; expected `text` or `json`",
                            ),
                        );
                    }
                },
                FlagKind::Role => {
                    index += 1;
                    if index >= n {
                        return Err(concat2("missing value for ", current.as_str()));
                    }
                    let value = &args[index];
                    assert(a[index as int] == value@);
                    if is_text(value, "parent") {
                        config = BenchmarkConfig { role: ProcessRole::Parent, ..config };
                    } else if is_text(value, "child") {
                        config = BenchmarkConfig { role: ProcessRole::Child, ..config };
                    } else {
                        return Err(
                            concat3(
                                "invalid process role `",
                                value.as_str(),
                                "`; expected `parent` or `child`",
                            ),
                        );
                    }
                },
                FlagKind::Help => {
                    return Err(Self::usage(program_name));
                },
                FlagKind::Unknown => {
                    let mut m = concat3("unrecognized argument `", current.as_str(), "`\n\n");
                    let u = Self::usage(program_name);
                    m.append(u.as_str());
                    return Err(m);
                },
            }
            index += 1;
        }
        if config.message_count == 0 {
            return Err(String::from_str("message count must be greater than zero"));
        }
        if config.trials == 0 {
            return Err(String::from_str("trials must be greater than zero"));
        }
        Ok(config)
    }

    /// The usage text, naming the program `program_name`.
    pub fn usage(program_name: &str) -> (r: String)
        ensures
            r@ == usage_text(program_name@),
    {
        concat3("Usage: ", program_name, USAGE_OPTIONS)
    }

    /// Reads the count that follows the flag at `*index`, moving `*index` onto
    /// the value.
    fn parse_usize(args: &Vec<String>, index: &mut usize, flag: &String, label: &str) -> (r: Result<usize, String>)
        requires
            *old(index) < args.len(),
        ensures
            *final(index) == *old(index) + 1,
            match r {
                Ok(v) => numeric_value(texts(args@), *old(index) as int, flag@, label@) == Ok::<int, Seq<char>>(v as int),
                Err(m) => numeric_value(texts(args@), *old(index) as int, flag@, label@) == Err::<int, Seq<char>>(m@),
            },
    {
        *index += 1;
        if *index >= args.len() {
            return Err(concat2("missing value for ", flag.as_str()));
        }
        let value = &args[*index];
        assert(texts(args@)[*index as int] == value@);
        match parse_unsigned(value.as_str(), usize::MAX as u64) {
            Ok(v) => Ok(v as usize),
            Err(_) => {
                let mut m = concat3("invalid ", label, " `");
                m.append(value.as_str());
                m.append("`");
                Err(m)
            },
        }
    }

    /// The arguments that hand this configuration to a process playing
    /// `role`.
    pub fn args_for_role(&self, role: ProcessRole) -> (r: Vec<String>)
        ensures
            texts(r@) == role_args(*self, role),
    {
        let mut args: Vec<String> = Vec::new();
        args.push(String::from_str("--message-count"));
        args.push(format_decimal(self.message_count as u128));
        args.push(String::from_str("--message-size"));
        args.push(format_decimal(self.message_size as u128));
        args.push(String::from_str("--warmup-count"));
        args.push(format_decimal(self.warmup_count as u128));
        args.push(String::from_str("--trials"));
        args.push(format_decimal(self.trials as u128));
        args.push(String::from_str("--format"));
        args.push(
            String::from_str(
                match self.output_format {
                    OutputFormat::Text => "text",
                    OutputFormat::Json => "json",
                },
            ),
        );
        args.push(String::from_str("--role"));
        args.push(
            String::from_str(
                match role {
                    ProcessRole::Parent => "parent",
                    ProcessRole::Child => "child",
                },
            ),
        );
        assert(texts(args@) =~= role_args(*self, role));
        args
    }

    /// The arguments that hand this configuration to the child process.
    pub fn child_args(&self) -> (r: Vec<String>)
        ensures
            texts(r@) == role_args(*self, ProcessRole::Child),
    {
        self.args_for_role(ProcessRole::Child)
    }
}

} // verus!
