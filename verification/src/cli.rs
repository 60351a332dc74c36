//! The command line: the commands, how an argument list is read into one, and
//! the hexadecimal rendering used to print fingerprints.

use vstd::prelude::*;
use crate::frame::text_is;
use crate::zab_k::KeyType;
use vstd::string::*;

verus! {

/// A command of the command-line tool.
#[derive(Debug)]
pub enum Command {
    /// Generate a new key.
    Keygen { mode: String, output: String },
    /// Encrypt a file.
    Encrypt { key: String, input: String, output: String },
    /// Decrypt a file.
    Decrypt { key: String, input: String, output: String },
    /// Synchronise with peers.
    Sync { peers: Vec<String> },
    /// Tell which format a file holds.
    Verify { input: String },
    /// Show the entropy sources.
    Entropy,
    /// Show the version.
    Version,
    /// Show the usage.
    Help,
}

/// A command with its text arguments as character sequences.
pub enum CommandView {
    Keygen { mode: Seq<char>, output: Seq<char> },
    Encrypt { key: Seq<char>, input: Seq<char>, output: Seq<char> },
    Decrypt { key: Seq<char>, input: Seq<char>, output: Seq<char> },
    Sync { peers: Seq<Seq<char>> },
    Verify { input: Seq<char> },
    Entropy,
    Version,
    Help,
}

/// The characters of each string of a list.
pub open spec fn text_views(strings: Seq<String>) -> Seq<Seq<char>> {
    strings.map_values(|s: String| s@)
}

impl View for Command {
    type V = CommandView;

    open spec fn view(&self) -> CommandView {
        match self {
            Command::Keygen { mode, output } => CommandView::Keygen { mode: mode@, output: output@ },
            Command::Encrypt { key, input, output } => CommandView::Encrypt {
                key: key@,
                input: input@,
                output: output@,
            },
            Command::Decrypt { key, input, output } => CommandView::Decrypt {
                key: key@,
                input: input@,
                output: output@,
            },
            Command::Sync { peers } => CommandView::Sync { peers: text_views(peers@) },
            Command::Verify { input } => CommandView::Verify { input: input@ },
            Command::Entropy => CommandView::Entropy,
            Command::Version => CommandView::Version,
            Command::Help => CommandView::Help,
        }
    }
}

/// The options of `keygen`, read from position `i` on: `--mode`/`-m` and
/// `--output`/`-o` take the next argument when there is one; anything else is skipped.
pub open spec fn keygen_options(args: Seq<Seq<char>>, i: int, mode: Seq<char>, output: Seq<char>) -> (
    Seq<char>,
    Seq<char>,
)
    decreases args.len() - i,
{
    if i < 0 || i >= args.len() {
        (mode, output)
    } else if args[i] == "--mode"@ || args[i] == "-m"@ {
        if i + 1 < args.len() {
            keygen_options(args, i + 2, args[i + 1], output)
        } else {
            keygen_options(args, i + 1, mode, output)
        }
    } else if args[i] == "--output"@ || args[i] == "-o"@ {
        if i + 1 < args.len() {
            keygen_options(args, i + 2, mode, args[i + 1])
        } else {
            keygen_options(args, i + 1, mode, output)
        }
    } else {
        keygen_options(args, i + 1, mode, output)
    }
}

/// The options of `encrypt` and `decrypt`, read from position `i` on:
/// `--key`/`-k`, `--input`/`-i` and `--output`/`-o` take the next argument when
/// there is one; anything else is skipped.
pub open spec fn file_options(
    args: Seq<Seq<char>>,
    i: int,
    key: Seq<char>,
    input: Seq<char>,
    output: Seq<char>,
) -> (Seq<char>, Seq<char>, Seq<char>)
    decreases args.len() - i,
{
    if i < 0 || i >= args.len() {
        (key, input, output)
    } else if args[i] == "--key"@ || args[i] == "-k"@ {
        if i + 1 < args.len() {
            file_options(args, i + 2, args[i + 1], input, output)
        } else {
            file_options(args, i + 1, key, input, output)
        }
    } else if args[i] == "--input"@ || args[i] == "-i"@ {
        if i + 1 < args.len() {
            file_options(args, i + 2, key, args[i + 1], output)
        } else {
            file_options(args, i + 1, key, input, output)
        }
    } else if args[i] == "--output"@ || args[i] == "-o"@ {
        if i + 1 < args.len() {
            file_options(args, i + 2, key, input, args[i + 1])
        } else {
            file_options(args, i + 1, key, input, output)
        }
    } else {
        file_options(args, i + 1, key, input, output)
    }
}

/// Whether an argument is an option, that is starts with `-`.
pub open spec fn is_option(arg: Seq<char>) -> bool {
    arg.len() > 0 && arg[0] == '-'
}

/// The peers named after `sync`: every argument from the third on that is not an option.
pub open spec fn sync_peers(args: Seq<Seq<char>>) -> Seq<Seq<char>> {
    args.subrange(2, args.len() as int).filter(|a: Seq<char>| !is_option(a))
}

/// The command that an argument list (program name first) stands for.
pub open spec fn parse_spec(args: Seq<Seq<char>>) -> CommandView {
    if args.len() < 2 {
        CommandView::Help
    } else {
        let c = args[1];
        if c == "keygen"@ {
            let (mode, output) = keygen_options(args, 2, "aes"@, "qwartz.key"@);
            CommandView::Keygen { mode, output }
        } else if c == "encrypt"@ {
            let (key, input, output) = file_options(args, 2, seq![], seq![], seq![]);
            CommandView::Encrypt { key, input, output }
        } else if c == "decrypt"@ {
            let (key, input, output) = file_options(args, 2, seq![], seq![], seq![]);
            CommandView::Decrypt { key, input, output }
        } else if c == "sync"@ {
            CommandView::Sync { peers: sync_peers(args) }
        } else if c == "verify"@ {
            CommandView::Verify { input: if args.len() > 2 { args[2] } else { seq![] } }
        } else if c == "entropy"@ {
            CommandView::Entropy
        } else if c == "version"@ || c == "-v"@ || c == "--version"@ {
            CommandView::Version
        } else {
            CommandView::Help
        }
    }
}

/// Whether an argument names an option of `keygen`, in its long or short form.
pub open spec fn is_keygen_flag(arg: Seq<char>) -> bool {
    arg == "--mode"@ || arg == "-m"@ || arg == "--output"@ || arg == "-o"@
}

/// Reading `keygen` options from a position where no argument is a keygen
/// option leaves the values as they are.
proof fn lemma_keygen_options_without_flags(args: Seq<Seq<char>>, i: int, mode: Seq<char>, output: Seq<char>)
    requires
        0 <= i,
        forall|j: int| i <= j < args.len() ==> !is_keygen_flag(#[trigger] args[j]),
    ensures
        keygen_options(args, i, mode, output) == (mode, output),
    decreases args.len() - i,
{
    if i < args.len() {
        assert(!is_keygen_flag(args[i]));
        lemma_keygen_options_without_flags(args, i + 1, mode, output);
    }
}

/// `keygen` reads `--output x` and `-o x` alike: after `keygen`, either form
/// followed by a value, then arguments none of which is a keygen option, gives
/// the default mode `aes` and the output `x`.
pub proof fn lemma_keygen_output_option(prog: Seq<char>, flag: Seq<char>, x: Seq<char>, rest: Seq<Seq<char>>)
    requires
        flag == "--output"@ || flag == "-o"@,
        forall|j: int| 0 <= j < rest.len() ==> !is_keygen_flag(#[trigger] rest[j]),
    ensures
        parse_spec(seq![prog, "keygen"@, flag, x] + rest) == (CommandView::Keygen { mode: "aes"@, output: x }),
{
    let args = seq![prog, "keygen"@, flag, x] + rest;
    reveal_strlit("--output");
    reveal_strlit("-o");
    reveal_strlit("--mode");
    reveal_strlit("-m");
    assert(args[1] == "keygen"@);
    assert(args[2] == flag);
    assert("--output"@.len() == 8 && "--mode"@.len() == 6 && "-m"@.len() == 2 && "-o"@.len() == 2);
    assert("-o"@[1] != "-m"@[1]);
    assert(flag != "--mode"@ && flag != "-m"@);
    assert forall|j: int| 4 <= j < args.len() implies !is_keygen_flag(#[trigger] args[j]) by {
        assert(args[j] == rest[j - 4]);
    }
    lemma_keygen_options_without_flags(args, 4, "aes"@, x);
}

/// `keygen` reads `--mode m` and `-m m` alike: after `keygen`, either form
/// followed by a value, then arguments none of which is a keygen option, gives
/// the mode `m` and the default output `qwartz.key`.
pub proof fn lemma_keygen_mode_option(prog: Seq<char>, flag: Seq<char>, m: Seq<char>, rest: Seq<Seq<char>>)
    requires
        flag == "--mode"@ || flag == "-m"@,
        forall|j: int| 0 <= j < rest.len() ==> !is_keygen_flag(#[trigger] rest[j]),
    ensures
        parse_spec(seq![prog, "keygen"@, flag, m] + rest) == (CommandView::Keygen { mode: m, output: "qwartz.key"@ }),
{
    let args = seq![prog, "keygen"@, flag, m] + rest;
    assert(args[1] == "keygen"@);
    assert(args[2] == flag);
    assert forall|j: int| 4 <= j < args.len() implies !is_keygen_flag(#[trigger] args[j]) by {
        assert(args[j] == rest[j - 4]);
    }
    lemma_keygen_options_without_flags(args, 4, m, "qwartz.key"@);
}

/// Whether an argument names an option of `encrypt` and `decrypt`, in its long
/// or short form.
pub open spec fn is_file_flag(arg: Seq<char>) -> bool {
    arg == "--key"@ || arg == "-k"@ || arg == "--input"@ || arg == "-i"@ || arg == "--output"@ || arg
        == "-o"@
}

/// Reading `encrypt`/`decrypt` options from a position where no argument is such
/// an option leaves the values as they are.
proof fn lemma_file_options_without_flags(
    args: Seq<Seq<char>>,
    i: int,
    key: Seq<char>,
    input: Seq<char>,
    output: Seq<char>,
)
    requires
        0 <= i,
        forall|j: int| i <= j < args.len() ==> !is_file_flag(#[trigger] args[j]),
    ensures
        file_options(args, i, key, input, output) == (key, input, output),
    decreases args.len() - i,
{
    if i < args.len() {
        assert(!is_file_flag(args[i]));
        lemma_file_options_without_flags(args, i + 1, key, input, output);
    }
}

/// `encrypt` and `decrypt` read the long and short forms of their options alike:
/// the command, then a key option, an input option and an output option (each
/// `--key`/`-k`, `--input`/`-i`, `--output`/`-o`) with their values, then
/// arguments none of which is such an option, give that key, input and output.
pub proof fn lemma_file_command_options(
    prog: Seq<char>,
    command: Seq<char>,
    key_flag: Seq<char>,
    key: Seq<char>,
    input_flag: Seq<char>,
    input: Seq<char>,
    output_flag: Seq<char>,
    output: Seq<char>,
    rest: Seq<Seq<char>>,
)
    requires
        command == "encrypt"@ || command == "decrypt"@,
        key_flag == "--key"@ || key_flag == "-k"@,
        input_flag == "--input"@ || input_flag == "-i"@,
        output_flag == "--output"@ || output_flag == "-o"@,
        forall|j: int| 0 <= j < rest.len() ==> !is_file_flag(#[trigger] rest[j]),
    ensures
        ({
            let args = seq![prog, command, key_flag, key, input_flag, input, output_flag, output] + rest;
            &&& command == "encrypt"@ ==> parse_spec(args) == (CommandView::Encrypt { key, input, output })
            &&& command == "decrypt"@ ==> parse_spec(args) == (CommandView::Decrypt { key, input, output })
        }),
{
    let args = seq![prog, command, key_flag, key, input_flag, input, output_flag, output] + rest;
    reveal_strlit("keygen");
    reveal_strlit("encrypt");
    reveal_strlit("decrypt");
    reveal_strlit("--key");
    reveal_strlit("-k");
    reveal_strlit("--input");
    reveal_strlit("-i");
    reveal_strlit("--output");
    reveal_strlit("-o");
    assert("keygen"@.len() == 6 && "encrypt"@.len() == 7 && "decrypt"@.len() == 7);
    assert("encrypt"@[0] != "decrypt"@[0]);
    assert("--key"@.len() == 5 && "--input"@.len() == 7 && "--output"@.len() == 8);
    assert("-k"@.len() == 2 && "-i"@.len() == 2 && "-o"@.len() == 2);
    assert("-k"@[1] != "-i"@[1] && "-k"@[1] != "-o"@[1] && "-i"@[1] != "-o"@[1]);
    assert(args[1] == command && args[2] == key_flag && args[3] == key);
    assert(args[4] == input_flag && args[5] == input && args[6] == output_flag && args[7] == output);
    assert forall|j: int| 8 <= j < args.len() implies !is_file_flag(#[trigger] args[j]) by {
        assert(args[j] == rest[j - 8]);
    }
    lemma_file_options_without_flags(args, 8, key, input, output);
    assert(file_options(args, 6, key, input, seq![]) == file_options(args, 8, key, input, output));
    assert(file_options(args, 4, key, seq![], seq![]) == file_options(args, 6, key, input, seq![]));
    assert(file_options(args, 2, seq![], seq![], seq![]) == file_options(args, 4, key, seq![], seq![]));
}

/// Whether `s` starts with `-`.
fn starts_with_dash(s: &String) -> (r: bool)
    ensures
        r == is_option(s@),
{
    let t: &str = s.as_str();
    if t.unicode_len() == 0 {
        false
    } else {
        t.get_char(0) == '-'
    }
}

/// Reads the options of `keygen`.
fn read_keygen_options(args: &Vec<String>) -> (r: (String, String))
    requires
        args.len() >= 2,
    ensures
        (r.0@, r.1@) == keygen_options(text_views(args@), 2, "aes"@, "qwartz.key"@),
{
    let ghost av = text_views(args@);
    let mut mode: String = String::from_str("aes");
    let mut output: String = String::from_str("qwartz.key");
    let mut i: usize = 2;
    while i < args.len()
        invariant
            2 <= i <= args.len(),
            av == text_views(args@),
            keygen_options(av, i as int, mode@, output@) == keygen_options(
                av,
                2,
                "aes"@,
                "qwartz.key"@,
            ),
        decreases args.len() - i,
    {
        let a = &args[i];
        if text_is(a, "--mode") || text_is(a, "-m") {
            if i + 1 < args.len() {
                mode = args[i + 1].clone();
                i += 1;
            }
        } else if text_is(a, "--output") || text_is(a, "-o") {
            if i + 1 < args.len() {
                output = args[i + 1].clone();
                i += 1;
            }
        }
        i += 1;
    }
    (mode, output)
}

/// Reads the options of `encrypt` and `decrypt`.
fn read_file_options(args: &Vec<String>) -> (r: (String, String, String))
    requires
        args.len() >= 2,
    ensures
        (r.0@, r.1@, r.2@) == file_options(text_views(args@), 2, seq![], seq![], seq![]),
{
    let ghost av = text_views(args@);
    let mut key: String = String::new();
    let mut input: String = String::new();
    let mut output: String = String::new();
    let mut i: usize = 2;
    while i < args.len()
        invariant
            2 <= i <= args.len(),
            av == text_views(args@),
            file_options(av, i as int, key@, input@, output@) == file_options(
                av,
                2,
                seq![],
                seq![],
                seq![],
            ),
        decreases args.len() - i,
    {
        let a = &args[i];
        if text_is(a, "--key") || text_is(a, "-k") {
            if i + 1 < args.len() {
                key = args[i + 1].clone();
                i += 1;
            }
        } else if text_is(a, "--input") || text_is(a, "-i") {
            if i + 1 < args.len() {
                input = args[i + 1].clone();
                i += 1;
            }
        } else if text_is(a, "--output") || text_is(a, "-o") {
            if i + 1 < args.len() {
                output = args[i + 1].clone();
                i += 1;
            }
        }
        i += 1;
    }
    (key, input, output)
}

/// Collects the peers named after `sync`.
fn read_sync_peers(args: &Vec<String>) -> (peers: Vec<String>)
    requires
        args.len() >= 2,
    ensures
        text_views(peers@) == sync_peers(text_views(args@)),
{
    let ghost av = text_views(args@);
    let mut peers: Vec<String> = Vec::new();
    let mut j: usize = 2;
    while j < args.len()
        invariant
            2 <= j <= args.len(),
            av == text_views(args@),
            text_views(peers@) == av.subrange(2, j as int).filter(|a: Seq<char>| !is_option(a)),
        decreases args.len() - j,
    {
        let ghost before = peers@;
        proof {
            reveal_with_fuel(Seq::<_>::filter, 1);
            assert(av.subrange(2, j + 1).drop_last() =~= av.subrange(2, j as int));
        }
        if !starts_with_dash(&args[j]) {
            peers.push(args[j].clone());
            assert(text_views(peers@) =~= text_views(before).push(av[j as int]));
        } else {
            assert(text_views(peers@) =~= text_views(before));
        }
        j += 1;
    }
    assert(av.subrange(2, args.len() as int) =~= av.subrange(2, av.len() as int));
    peers
}

impl Command {
    /// Reads a command from the program's arguments, the program name first.
    /// A list of fewer than two arguments, and an unknown command, read as `Help`.
    pub fn parse(args: &Vec<String>) -> (cmd: Command)
        ensures
            cmd@ == parse_spec(text_views(args@)),
    {
        let ghost av = text_views(args@);
        if args.len() < 2 {
            return Command::Help;
        }
        let c = &args[1];
        assert(av[1] == c@);
        if text_is(c, "keygen") {
            let (mode, output) = read_keygen_options(args);
            Command::Keygen { mode, output }
        } else if text_is(c, "encrypt") {
            let (key, input, output) = read_file_options(args);
            Command::Encrypt { key, input, output }
        } else if text_is(c, "decrypt") {
            let (key, input, output) = read_file_options(args);
            Command::Decrypt { key, input, output }
        } else if text_is(c, "sync") {
            let peers = read_sync_peers(args);
            Command::Sync { peers }
        } else if text_is(c, "verify") {
            let input = if args.len() > 2 {
                args[2].clone()
            } else {
                String::new()
            };
            Command::Verify { input }
        } else if text_is(c, "entropy") {
            Command::Entropy
        } else if text_is(c, "version") || text_is(c, "-v") || text_is(c, "--version") {
            Command::Version
        } else {
            Command::Help
        }
    }
}

/// The sixteen lower-case hexadecimal digits, in order.
pub open spec fn hex_digits() -> Seq<char> {
    "0123456789abcdef"@
}

/// Lower-case hexadecimal text of a byte string, two digits per byte, high digit first.
pub open spec fn hex_text(data: Seq<u8>) -> Seq<char>
    decreases data.len(),
{
    if data.len() == 0 {
        seq![]
    } else {
        let b = data.last();
        hex_text(data.drop_last()) + seq![hex_digits()[(b / 16) as int], hex_digits()[(b % 16) as int]]
    }
}

/// The hexadecimal digit of a value below sixteen, as text.
fn hex_digit(n: u8) -> (d: &'static str)
    requires
        n < 16,
    ensures
        d@ == seq![hex_digits()[n as int]],
{
    let all: &'static str = "0123456789abcdef";
    proof {
        reveal_strlit("0123456789abcdef");
    }
    let i: usize = n as usize;
    all.substring_ascii(i, i + 1)
}

/// Lower-case hexadecimal text of `data`, two digits per byte.
pub fn encode(data: &[u8]) -> (text: String)
    ensures
        text@ == hex_text(data@),
        text@.len() == 2 * data@.len(),
{
    let mut text: String = String::new();
    let mut i: usize = 0;
    while i < data.len()
        invariant
            0 <= i <= data.len(),
            text@ == hex_text(data@.subrange(0, i as int)),
            text@.len() == 2 * i,
        decreases data.len() - i,
    {
        let b: u8 = data[i];
        let hi = hex_digit(b / 16);
        let lo = hex_digit(b % 16);
        text.append(hi);
        text.append(lo);
        proof {
            let s = data@.subrange(0, i + 1);
            assert(s.drop_last() =~= data@.subrange(0, i as int));
            assert(s.last() == b);
        }
        i += 1;
    }
    assert(data@.subrange(0, data@.len() as int) =~= data@);
    text
}

/// What a file holds, as told by its first bytes.
#[derive(Debug, Clone, Copy, PartialEq, Eq)]
pub enum FileFormat {
    /// It opens with `ZAB-R01`: adaptive (ZAB-R) data.
    Adaptive,
    /// It opens with `ZAB-K01`: a key-based (ZAB-K) key.
    KeyBased,
    /// Neither.
    Unknown,
}

/// The seven bytes `ZAB-R01`.
pub open spec fn adaptive_magic() -> Seq<u8> {
    seq![0x5Au8, 0x41u8, 0x42u8, 0x2Du8, 0x52u8, 0x30u8, 0x31u8]
}

/// The seven bytes `ZAB-K01`.
pub open spec fn keybased_magic() -> Seq<u8> {
    seq![0x5Au8, 0x41u8, 0x42u8, 0x2Du8, 0x4Bu8, 0x30u8, 0x31u8]
}

/// Whether `data` starts with `prefix`.
pub open spec fn starts_with(data: Seq<u8>, prefix: Seq<u8>) -> bool {
    data.len() >= prefix.len() && data.subrange(0, prefix.len() as int) == prefix
}

/// Whether `data` starts with the seven bytes `ZAB-` then `tag`, `0`, `1`.
fn has_magic(data: &[u8], tag: u8) -> (r: bool)
    ensures
        r == starts_with(data@, seq![0x5Au8, 0x41u8, 0x42u8, 0x2Du8, tag, 0x30u8, 0x31u8]),
{
    let r = data.len() >= 7 && data[0] == 0x5A && data[1] == 0x41 && data[2] == 0x42 && data[3]
        == 0x2D && data[4] == tag && data[5] == 0x30 && data[6] == 0x31;
    proof {
        if data@.len() >= 7 {
            assert(r == (data@.subrange(0, 7) =~= seq![0x5Au8, 0x41u8, 0x42u8, 0x2Du8, tag, 0x30u8, 0x31u8]));
        }
    }
    r
}

/// Tells what a file holds (the `verify` command): `ZAB-R01` first, then `ZAB-K01`.
pub fn detect_format(data: &[u8]) -> (f: FileFormat)
    ensures
        starts_with(data@, adaptive_magic()) ==> f == FileFormat::Adaptive,
        !starts_with(data@, adaptive_magic()) && starts_with(data@, keybased_magic()) ==> f
            == FileFormat::KeyBased,
        !starts_with(data@, adaptive_magic()) && !starts_with(data@, keybased_magic()) ==> f
            == FileFormat::Unknown,
{
    if has_magic(data, 0x52) {
        FileFormat::Adaptive
    } else if has_magic(data, 0x4B) {
        FileFormat::KeyBased
    } else {
        FileFormat::Unknown
    }
}

/// The key type that `keygen` makes for a mode: AES-256-GCM for every mode
/// (`adaptive`, `zab-r`, `pq`, `zab-k` and any other).
pub fn key_type_for_mode(_mode: &str) -> (t: KeyType)
    ensures
        t == KeyType::SymmetricAES,
{
    KeyType::SymmetricAES
}

} // verus!
