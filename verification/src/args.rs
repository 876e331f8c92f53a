//! The command line of the inspection tool `keteinfo`.
//!
//! Two forms: a bare file, whose structure is shown; or an app, a directory, a seed and a secret,
//! whose vault is opened, with the entries to decrypt.

use crate::hex;
use crate::hex::parse_hex32;
use crate::text::{chars_of, same_text};
use vstd::prelude::*;

verus! {

/// What one argument is.
#[derive(Clone, Copy, PartialEq, Eq, Structural)]
pub enum ArgKind {
    App,
    Dir,
    Seed,
    Secret,
    Domain,
    Addr,
    Scope,
    /// Option-shaped, but none of the above.
    Unknown,
    /// A file or a logical key.
    Word,
}

/// What the arguments gave, so far.
pub struct Args {
    pub app_id: Option<String>,
    pub app_dir: Option<String>,
    pub seed: Option<String>,
    pub secret: Option<String>,
    pub file: Option<String>,
    pub keys: Vec<String>,
    pub domains: Vec<String>,
    pub addrs: Vec<String>,
    pub scope: Option<String>,
}

/// [`Args`] as plain mathematics.
#[verifier::ext_equal]
pub struct ArgsView {
    pub app_id: Option<Seq<char>>,
    pub app_dir: Option<Seq<char>>,
    pub seed: Option<Seq<char>>,
    pub secret: Option<Seq<char>>,
    pub file: Option<Seq<char>>,
    pub keys: Seq<Seq<char>>,
    pub domains: Seq<Seq<char>>,
    pub addrs: Seq<Seq<char>>,
    pub scope: Option<Seq<char>>,
}

/// An optional text as characters.
pub open spec fn text_seen(t: Option<String>) -> Option<Seq<char>> {
    match t {
        Some(s) => Some(s@),
        None => None,
    }
}

/// Texts as characters.
pub open spec fn texts_seen(texts: Seq<String>) -> Seq<Seq<char>> {
    texts.map_values(|s: String| s@)
}

impl View for Args {
    type V = ArgsView;

    open spec fn view(&self) -> ArgsView {
        ArgsView {
            app_id: text_seen(self.app_id),
            app_dir: text_seen(self.app_dir),
            seed: text_seen(self.seed),
            secret: text_seen(self.secret),
            file: text_seen(self.file),
            keys: texts_seen(self.keys@),
            domains: texts_seen(self.domains@),
            addrs: texts_seen(self.addrs@),
            scope: text_seen(self.scope),
        }
    }
}

/// Nothing given yet.
pub open spec fn no_args() -> ArgsView {
    ArgsView {
        app_id: None,
        app_dir: None,
        seed: None,
        secret: None,
        file: None,
        keys: Seq::empty(),
        domains: Seq::empty(),
        addrs: Seq::empty(),
        scope: None,
    }
}

/// Whether `s` starts with `prefix`.
pub open spec fn starts_with(s: Seq<char>, prefix: Seq<char>) -> bool {
    prefix.len() <= s.len() && s.take(prefix.len() as int) == prefix
}

/// Whether `s` ends with `suffix`.
pub open spec fn ends_with(s: Seq<char>, suffix: Seq<char>) -> bool {
    suffix.len() <= s.len() && s.skip(s.len() - suffix.len()) == suffix
}

/// Whether `s` has the shape of a path: a separator in it, or the ring files' extension.
pub open spec fn path_shaped(s: Seq<char>) -> bool {
    s.contains('/') || s.contains('\\') || ends_with(s, ".vsf"@)
}

/// What the argument `s` is.
pub open spec fn kind_of(s: Seq<char>) -> ArgKind {
    if s == "--app"@ {
        ArgKind::App
    } else if s == "--dir"@ {
        ArgKind::Dir
    } else if s == "--seed"@ {
        ArgKind::Seed
    } else if s == "--secret"@ {
        ArgKind::Secret
    } else if s == "--domain"@ {
        ArgKind::Domain
    } else if s == "--addr"@ {
        ArgKind::Addr
    } else if s == "--scope"@ {
        ArgKind::Scope
    } else if starts_with(s, "--"@) {
        ArgKind::Unknown
    } else {
        ArgKind::Word
    }
}

/// `args` after an option with its value. The last one given counts, an option at the very end
/// counts as one without a value; domains and addresses are collected.
pub open spec fn with_option(args: ArgsView, kind: ArgKind, value: Option<Seq<char>>) -> ArgsView {
    match kind {
        ArgKind::App => ArgsView { app_id: value, ..args },
        ArgKind::Dir => ArgsView { app_dir: value, ..args },
        ArgKind::Seed => ArgsView { seed: value, ..args },
        ArgKind::Secret => ArgsView { secret: value, ..args },
        ArgKind::Domain => match value {
            Some(d) => ArgsView { domains: args.domains.push(d), ..args },
            None => args,
        },
        ArgKind::Addr => match value {
            Some(a) => ArgsView { addrs: args.addrs.push(a), ..args },
            None => args,
        },
        ArgKind::Scope => ArgsView { scope: value, ..args },
        _ => args,
    }
}

/// `args` after a word: the first path-shaped one is the file, every other one a logical key.
pub open spec fn with_word(args: ArgsView, word: Seq<char>) -> ArgsView {
    if path_shaped(word) && args.file is None {
        ArgsView { file: Some(word), ..args }
    } else {
        ArgsView { keys: args.keys.push(word), ..args }
    }
}

/// `args` after all of `argv`, or the first unknown option in it.
pub open spec fn scanned(args: ArgsView, argv: Seq<Seq<char>>) -> Result<ArgsView, Seq<char>>
    decreases argv.len(),
{
    if argv.len() == 0 {
        Ok(args)
    } else {
        match kind_of(argv[0]) {
            ArgKind::Unknown => Err(argv[0]),
            ArgKind::Word => scanned(with_word(args, argv[0]), argv.skip(1)),
            kind => if argv.len() == 1 {
                Ok(with_option(args, kind, None))
            } else {
                scanned(with_option(args, kind, Some(argv[1])), argv.skip(2))
            },
        }
    }
}

/// What the tool is asked to do.
pub enum Invocation {
    /// Show the usage and exit with this code.
    Usage { exit: u8 },
    /// Refuse an unknown option.
    UnknownOption { option: String },
    /// Neither a file nor what decryption needs was given.
    NothingToDo,
    /// Show the structure of a file.
    ShowFile { path: String },
    /// Decryption was asked for, but not everything it needs was given.
    IncompleteDecrypt,
    /// Open a vault and decrypt entries of it.
    Decrypt { id: String, dir: String, seed: String, secret: String, args: Args },
}

/// [`Invocation`] as plain mathematics.
#[verifier::ext_equal]
pub enum InvocationView {
    Usage { exit: u8 },
    UnknownOption { option: Seq<char> },
    NothingToDo,
    ShowFile { path: Seq<char> },
    IncompleteDecrypt,
    Decrypt {
        id: Seq<char>,
        dir: Seq<char>,
        seed: Seq<char>,
        secret: Seq<char>,
        args: ArgsView,
    },
}

impl View for Invocation {
    type V = InvocationView;

    open spec fn view(&self) -> InvocationView {
        match self {
            Invocation::Usage { exit } => InvocationView::Usage { exit: *exit },
            Invocation::UnknownOption { option } => InvocationView::UnknownOption {
                option: option@,
            },
            Invocation::NothingToDo => InvocationView::NothingToDo,
            Invocation::ShowFile { path } => InvocationView::ShowFile { path: path@ },
            Invocation::IncompleteDecrypt => InvocationView::IncompleteDecrypt,
            Invocation::Decrypt { id, dir, seed, secret, args } => InvocationView::Decrypt {
                id: id@,
                dir: dir@,
                seed: seed@,
                secret: secret@,
                args: args@,
            },
        }
    }
}

/// Whether `argv` asks for help anywhere.
pub open spec fn asks_for_help(argv: Seq<Seq<char>>) -> bool {
    exists|i: int| 0 <= i < argv.len() && (#[trigger] argv[i] == "-h"@ || argv[i] == "--help"@)
}

/// What the collected arguments ask for. Without a seed and a secret the tool shows a file;
/// otherwise it needs all four of app, directory, seed and secret.
pub open spec fn asked(args: ArgsView) -> InvocationView {
    if args.seed is None && args.secret is None {
        match args.file {
            Some(path) => InvocationView::ShowFile { path },
            None => InvocationView::NothingToDo,
        }
    } else {
        match (args.app_id, args.app_dir, args.seed, args.secret) {
            (Some(id), Some(dir), Some(seed), Some(secret)) => InvocationView::Decrypt {
                id,
                dir,
                seed,
                secret,
                args,
            },
            _ => InvocationView::IncompleteDecrypt,
        }
    }
}

/// What the command line `argv`, without the program's name, asks for.
pub open spec fn invocation(argv: Seq<Seq<char>>) -> InvocationView {
    if argv.len() == 0 {
        InvocationView::Usage { exit: 1 }
    } else if asks_for_help(argv) {
        InvocationView::Usage { exit: 0 }
    } else {
        match scanned(no_args(), argv) {
            Ok(args) => asked(args),
            Err(option) => InvocationView::UnknownOption { option },
        }
    }
}

/// Whether `chars`, at `at`, goes on with `part`.
fn part_at(chars: &Vec<char>, at: usize, part: &Vec<char>) -> (found: bool)
    requires
        at + part@.len() <= chars@.len(),
    ensures
        found == (chars@.subrange(at as int, at + part@.len()) == part@),
{
    let len: usize = chars.len();
    for i in 0..part.len()
        invariant
            at + part@.len() <= len == chars@.len(),
            chars@.subrange(at as int, at + i) == part@.take(i as int),
    {
        if chars[at + i] != part[i] {
            proof {
                let whole = chars@.subrange(at as int, at + part@.len());
                assert(whole[i as int] != part@[i as int]);
            }
            return false;
        }
        assert(chars@.subrange(at as int, at + i + 1) == part@.take(i as int + 1));
    }
    assert(part@.take(part@.len() as int) == part@);
    true
}

/// Whether `chars` holds `c`.
fn holds_char(chars: &Vec<char>, c: char) -> (found: bool)
    ensures
        found == chars@.contains(c),
{
    for i in 0..chars.len()
        invariant
            forall|j: int| 0 <= j < i ==> chars@[j] != c,
    {
        if chars[i] == c {
            return true;
        }
    }
    false
}

/// Whether `s` has the shape of a path. Logical keys are app strings without separators or the
/// ring files' extension, by convention.
pub fn looks_like_path(s: &str) -> (shaped: bool)
    ensures
        shaped == path_shaped(s@),
        shaped <==> s@.contains('/') || s@.contains('\\') || (s@.len() >= 4 && s@.skip(s@.len() - 4)
            == ".vsf"@),
{
    let chars = chars_of(s);
    let suffix = chars_of(".vsf");
    proof {
        reveal_strlit(".vsf");
    }
    if holds_char(&chars, '/') || holds_char(&chars, '\\') {
        return true;
    }
    if suffix.len() > chars.len() {
        return false;
    }
    let at: usize = chars.len() - suffix.len();
    assert(s@.skip(at as int) == s@.subrange(at as int, at + suffix@.len()));
    part_at(&chars, at, &suffix)
}

/// What the argument `s` is.
pub fn arg_kind(s: &str) -> (kind: ArgKind)
    ensures
        kind == kind_of(s@),
        kind == ArgKind::App <==> s@ == "--app"@,
        kind == ArgKind::Dir <==> s@ == "--dir"@,
        kind == ArgKind::Seed <==> s@ == "--seed"@,
        kind == ArgKind::Secret <==> s@ == "--secret"@,
        kind == ArgKind::Domain <==> s@ == "--domain"@,
        kind == ArgKind::Addr <==> s@ == "--addr"@,
        kind == ArgKind::Scope <==> s@ == "--scope"@,
        kind == ArgKind::Word <==> !(s@.len() >= 2 && s@[0] == '-' && s@[1] == '-'),
{
    proof {
        option_names_differ();
        options_start_with_dashes(s@);
    }
    if same_text(s, "--app") {
        ArgKind::App
    } else if same_text(s, "--dir") {
        ArgKind::Dir
    } else if same_text(s, "--seed") {
        ArgKind::Seed
    } else if same_text(s, "--secret") {
        ArgKind::Secret
    } else if same_text(s, "--domain") {
        ArgKind::Domain
    } else if same_text(s, "--addr") {
        ArgKind::Addr
    } else if same_text(s, "--scope") {
        ArgKind::Scope
    } else {
        let chars = chars_of(s);
        let prefix = chars_of("--");
        assert(prefix@.len() <= s@.len() ==> s@.take(prefix@.len() as int) == s@.subrange(
            0,
            prefix@.len() as int,
        ));
        if prefix.len() <= chars.len() && part_at(&chars, 0, &prefix) {
            ArgKind::Unknown
        } else {
            ArgKind::Word
        }
    }
}

impl Args {
    /// Nothing given yet.
    fn none() -> (args: Args)
        ensures
            args@ == no_args(),
    {
        let args = Args {
            app_id: None,
            app_dir: None,
            seed: None,
            secret: None,
            file: None,
            keys: Vec::new(),
            domains: Vec::new(),
            addrs: Vec::new(),
            scope: None,
        };
        assert(args@ =~= no_args());
        args
    }

    /// Takes in an option with its value.
    fn option(&mut self, kind: ArgKind, value: Option<String>)
        ensures
            final(self)@ == with_option(old(self)@, kind, text_seen(value)),
    {
        let ghost before = *self;
        match kind {
            ArgKind::App => self.app_id = value,
            ArgKind::Dir => self.app_dir = value,
            ArgKind::Seed => self.seed = value,
            ArgKind::Secret => self.secret = value,
            ArgKind::Domain => {
                if let Some(d) = value {
                    self.domains.push(d);
                    assert(texts_seen(self.domains@) == texts_seen(before.domains@).push(d@));
                }
            },
            ArgKind::Addr => {
                if let Some(a) = value {
                    self.addrs.push(a);
                    assert(texts_seen(self.addrs@) == texts_seen(before.addrs@).push(a@));
                }
            },
            ArgKind::Scope => self.scope = value,
            _ => {},
        }
    }

    /// Takes in a word.
    fn word(&mut self, word: String)
        ensures
            final(self)@ == with_word(old(self)@, word@),
    {
        let ghost before = *self;
        if looks_like_path(word.as_str()) && self.file.is_none() {
            self.file = Some(word);
        } else {
            self.keys.push(word);
            assert(texts_seen(self.keys@) == texts_seen(before.keys@).push(word@));
        }
    }
}

/// Collects the arguments, or finds the first unknown option.
fn scan(argv: &Vec<String>) -> (args: Result<Args, String>)
    ensures
        match args {
            Ok(found) => scanned(no_args(), texts_seen(argv@)) == Ok::<ArgsView, Seq<char>>(
                found@,
            ),
            Err(option) => scanned(no_args(), texts_seen(argv@)) == Err::<ArgsView, Seq<char>>(
                option@,
            ),
        },
{
    let ghost all = texts_seen(argv@);
    let mut args = Args::none();
    let mut i: usize = 0;
    assert(all.skip(0) == all);
    while i < argv.len()
        invariant
            i <= argv@.len(),
            all == texts_seen(argv@),
            scanned(no_args(), all) == scanned(args@, all.skip(i as int)),
        decreases argv@.len() - i,
    {
        let ghost rest = all.skip(i as int);
        assert(rest[0] == argv@[i as int]@);
        assert(rest.skip(1) == all.skip(i as int + 1));
        let kind = arg_kind(argv[i].as_str());
        if kind == ArgKind::Unknown {
            return Err(argv[i].clone());
        } else if kind == ArgKind::Word {
            args.word(argv[i].clone());
            i = i + 1;
        } else if argv.len() - i == 1 {
            args.option(kind, None);
            assert(scanned(no_args(), all) == Ok::<ArgsView, Seq<char>>(args@));
            return Ok(args);
        } else {
            assert(rest[1] == argv@[i + 1]@);
            assert(rest.skip(2) == all.skip(i as int + 2));
            args.option(kind, Some(argv[i + 1].clone()));
            i = i + 2;
        }
    }
    Ok(args)
}

/// Reads the command line, without the program's name.
pub fn parse_args(argv: &Vec<String>) -> (asked_for: Invocation)
    ensures
        asked_for@ == invocation(texts_seen(argv@)),
        argv@.len() == 0 ==> (asked_for matches Invocation::Usage { exit } && exit == 1),
        (exists|i: int|
            0 <= i < argv@.len() && (#[trigger] argv@[i]@ == "-h"@ || argv@[i]@ == "--help"@)) ==> (
        asked_for matches Invocation::Usage { exit } && exit == 0),
        argv@.len() > 0 && asked_for is Usage ==> exists|i: int|
            0 <= i < argv@.len() && (#[trigger] argv@[i]@ == "-h"@ || argv@[i]@ == "--help"@),
{
    let ghost all = texts_seen(argv@);
    if argv.len() == 0 {
        return Invocation::Usage { exit: 1 };
    }
    for i in 0..argv.len()
        invariant
            all == texts_seen(argv@),
            argv@.len() > 0,
            forall|j: int| 0 <= j < i ==> #[trigger] all[j] != "-h"@ && all[j] != "--help"@,
            forall|j: int|
                0 <= j < i ==> #[trigger] argv@[j]@ != "-h"@ && argv@[j]@ != "--help"@,
    {
        assert(all[i as int] == argv@[i as int]@);
        if same_text(argv[i].as_str(), "-h") || same_text(argv[i].as_str(), "--help") {
            assert(all[i as int] == argv@[i as int]@);
            return Invocation::Usage { exit: 0 };
        }
    }
    let args = match scan(argv) {
        Ok(args) => args,
        Err(option) => return Invocation::UnknownOption { option },
    };
    if args.seed.is_none() && args.secret.is_none() {
        return match args.file {
            Some(path) => Invocation::ShowFile { path },
            None => Invocation::NothingToDo,
        };
    }
    match (&args.app_id, &args.app_dir, &args.seed, &args.secret) {
        (Some(id), Some(dir), Some(seed), Some(secret)) => Invocation::Decrypt {
            id: id.clone(),
            dir: dir.clone(),
            seed: seed.clone(),
            secret: secret.clone(),
            args,
        },
        _ => Invocation::IncompleteDecrypt,
    }
}

/// Where a seed or a secret comes from.
pub enum KeySource {
    /// From the running system.
    Live,
    /// From the command line.
    Bytes([u8; 32]),
    /// From nowhere: the argument is neither the word nor 64 hexadecimal digits.
    Malformed,
}

/// Reads a seed or secret argument: `word` means the running system's, anything else must be 64
/// hexadecimal digits.
pub fn key_source(argument: &str, word: &str) -> (source: KeySource)
    ensures
        match source {
            KeySource::Live => argument@ == word@,
            KeySource::Bytes(bytes) => argument@ != word@ && hex::hex32(argument@) == Some(bytes@),
            KeySource::Malformed => argument@ != word@ && hex::hex32(argument@) is None,
        },
{
    if same_text(argument, word) {
        return KeySource::Live;
    }
    match parse_hex32(argument) {
        Some(bytes) => KeySource::Bytes(bytes),
        None => KeySource::Malformed,
    }
}

/// A command line that asks for help gets it, whatever else it holds.
pub proof fn help_comes_first(argv: Seq<Seq<char>>)
    requires
        asks_for_help(argv),
    ensures
        invocation(argv) == (InvocationView::Usage { exit: 0 }),
{
}

/// Only a command line that gives a seed and a secret, an app and a directory, ever decrypts; one
/// that gives neither seed nor secret never does.
pub proof fn decrypting_needs_all_four(args: ArgsView)
    ensures
        asked(args) is Decrypt <==> args.app_id is Some && args.app_dir is Some && args.seed is Some
            && args.secret is Some,
        args.seed is None && args.secret is None ==> asked(args) is ShowFile || asked(
            args,
        ) is NothingToDo,
{
}

/// The seven options are seven.
proof fn option_names_differ()
    ensures
        "--app"@ != "--dir"@,
        "--app"@ != "--seed"@,
        "--app"@ != "--secret"@,
        "--app"@ != "--domain"@,
        "--app"@ != "--addr"@,
        "--app"@ != "--scope"@,
        "--dir"@ != "--seed"@,
        "--dir"@ != "--secret"@,
        "--dir"@ != "--domain"@,
        "--dir"@ != "--addr"@,
        "--dir"@ != "--scope"@,
        "--seed"@ != "--secret"@,
        "--seed"@ != "--domain"@,
        "--seed"@ != "--addr"@,
        "--seed"@ != "--scope"@,
        "--secret"@ != "--domain"@,
        "--secret"@ != "--addr"@,
        "--secret"@ != "--scope"@,
        "--domain"@ != "--addr"@,
        "--domain"@ != "--scope"@,
        "--addr"@ != "--scope"@,
{
    reveal_strlit("--app");
    reveal_strlit("--dir");
    reveal_strlit("--seed");
    reveal_strlit("--secret");
    reveal_strlit("--domain");
    reveal_strlit("--addr");
    reveal_strlit("--scope");
    assert("--app"@[2] != "--dir"@[2]);
    assert("--app"@.len() != "--seed"@.len());
    assert("--app"@.len() != "--secret"@.len());
    assert("--app"@.len() != "--domain"@.len());
    assert("--app"@.len() != "--addr"@.len());
    assert("--app"@.len() != "--scope"@.len());
    assert("--dir"@.len() != "--seed"@.len());
    assert("--dir"@.len() != "--secret"@.len());
    assert("--dir"@.len() != "--domain"@.len());
    assert("--dir"@.len() != "--addr"@.len());
    assert("--dir"@.len() != "--scope"@.len());
    assert("--seed"@.len() != "--secret"@.len());
    assert("--seed"@.len() != "--domain"@.len());
    assert("--seed"@[2] != "--addr"@[2]);
    assert("--seed"@.len() != "--scope"@.len());
    assert("--secret"@[2] != "--domain"@[2]);
    assert("--secret"@.len() != "--addr"@.len());
    assert("--secret"@.len() != "--scope"@.len());
    assert("--domain"@.len() != "--addr"@.len());
    assert("--domain"@.len() != "--scope"@.len());
    assert("--addr"@.len() != "--scope"@.len());
}

/// An option is told by its two dashes, and the seven options have them.
proof fn options_start_with_dashes(s: Seq<char>)
    ensures
        starts_with(s, "--"@) <==> s.len() >= 2 && s[0] == '-' && s[1] == '-',
        starts_with("--app"@, "--"@),
        starts_with("--dir"@, "--"@),
        starts_with("--seed"@, "--"@),
        starts_with("--secret"@, "--"@),
        starts_with("--domain"@, "--"@),
        starts_with("--addr"@, "--"@),
        starts_with("--scope"@, "--"@),
{
    reveal_strlit("--");
    reveal_strlit("--app");
    assert("--app"@.take(2) == "--"@);
    reveal_strlit("--dir");
    assert("--dir"@.take(2) == "--"@);
    reveal_strlit("--seed");
    assert("--seed"@.take(2) == "--"@);
    reveal_strlit("--secret");
    assert("--secret"@.take(2) == "--"@);
    reveal_strlit("--domain");
    assert("--domain"@.take(2) == "--"@);
    reveal_strlit("--addr");
    assert("--addr"@.take(2) == "--"@);
    reveal_strlit("--scope");
    assert("--scope"@.take(2) == "--"@);
    if s.len() >= 2 && s[0] == '-' && s[1] == '-' {
        assert(s.take(2) == "--"@);
    }
    if starts_with(s, "--"@) {
        assert(s.take(2)[0] == '-' && s.take(2)[1] == '-');
    }
}

/// What an argument is, is told by its text: the seven options by their names, every other text that
/// starts with two dashes is an unknown option, and everything else is a word.
pub proof fn arguments_are_told_by_their_text(s: Seq<char>)
    ensures
        kind_of(s) == ArgKind::App <==> s == "--app"@,
        kind_of(s) == ArgKind::Dir <==> s == "--dir"@,
        kind_of(s) == ArgKind::Seed <==> s == "--seed"@,
        kind_of(s) == ArgKind::Secret <==> s == "--secret"@,
        kind_of(s) == ArgKind::Domain <==> s == "--domain"@,
        kind_of(s) == ArgKind::Addr <==> s == "--addr"@,
        kind_of(s) == ArgKind::Scope <==> s == "--scope"@,
        kind_of(s) == ArgKind::Word <==> !(s.len() >= 2 && s[0] == '-' && s[1] == '-'),
        path_shaped(s) <==> s.contains('/') || s.contains('\\') || (s.len() >= 4 && s.skip(s.len() - 4)
            == ".vsf"@),
{
    reveal_strlit(".vsf");
    option_names_differ();
    options_start_with_dashes(s);
}

/// An option takes the word behind it, whatever that is: app, directory, seed, secret and scope
/// replace what was given before, a domain or an address joins those given before, and nothing else
/// changes. The arguments behind the two are read as if they came first.
pub proof fn options_take_the_next_word(args: ArgsView, argv: Seq<Seq<char>>)
    requires
        argv.len() >= 2,
    ensures
        argv[0] == "--app"@ ==> scanned(args, argv) == scanned(
            (ArgsView { app_id: Some(argv[1]), ..args }),
            argv.skip(2),
        ),
        argv[0] == "--dir"@ ==> scanned(args, argv) == scanned(
            (ArgsView { app_dir: Some(argv[1]), ..args }),
            argv.skip(2),
        ),
        argv[0] == "--seed"@ ==> scanned(args, argv) == scanned(
            (ArgsView { seed: Some(argv[1]), ..args }),
            argv.skip(2),
        ),
        argv[0] == "--secret"@ ==> scanned(args, argv) == scanned(
            (ArgsView { secret: Some(argv[1]), ..args }),
            argv.skip(2),
        ),
        argv[0] == "--domain"@ ==> scanned(args, argv) == scanned(
            (ArgsView { domains: args.domains.push(argv[1]), ..args }),
            argv.skip(2),
        ),
        argv[0] == "--addr"@ ==> scanned(args, argv) == scanned(
            (ArgsView { addrs: args.addrs.push(argv[1]), ..args }),
            argv.skip(2),
        ),
        argv[0] == "--scope"@ ==> scanned(args, argv) == scanned(
            (ArgsView { scope: Some(argv[1]), ..args }),
            argv.skip(2),
        ),
{
    arguments_are_told_by_their_text(argv[0]);
}

/// An option at the very end has no value: it takes back what was given before, except that a domain
/// or an address takes nothing back.
pub proof fn options_at_the_end_have_no_value(args: ArgsView, argv: Seq<Seq<char>>)
    requires
        argv.len() == 1,
    ensures
        argv[0] == "--app"@ ==> scanned(args, argv) == Ok::<ArgsView, Seq<char>>(
            (ArgsView { app_id: None, ..args }),
        ),
        argv[0] == "--dir"@ ==> scanned(args, argv) == Ok::<ArgsView, Seq<char>>(
            (ArgsView { app_dir: None, ..args }),
        ),
        argv[0] == "--seed"@ ==> scanned(args, argv) == Ok::<ArgsView, Seq<char>>(
            (ArgsView { seed: None, ..args }),
        ),
        argv[0] == "--secret"@ ==> scanned(args, argv) == Ok::<ArgsView, Seq<char>>(
            (ArgsView { secret: None, ..args }),
        ),
        argv[0] == "--domain"@ ==> scanned(args, argv) == Ok::<ArgsView, Seq<char>>(args),
        argv[0] == "--addr"@ ==> scanned(args, argv) == Ok::<ArgsView, Seq<char>>(args),
        argv[0] == "--scope"@ ==> scanned(args, argv) == Ok::<ArgsView, Seq<char>>(
            (ArgsView { scope: None, ..args }),
        ),
{
    arguments_are_told_by_their_text(argv[0]);
}

/// A word is a logical key, except that the first path-shaped one is the file; an unknown option ends
/// the reading; and reading nothing gives nothing.
pub proof fn words_are_keys_or_the_file(args: ArgsView, argv: Seq<Seq<char>>)
    ensures
        argv.len() == 0 ==> scanned(args, argv) == Ok::<ArgsView, Seq<char>>(args),
        argv.len() > 0 && !(argv[0].len() >= 2 && argv[0][0] == '-' && argv[0][1] == '-') ==> {
            let shaped = argv[0].contains('/') || argv[0].contains('\\') || (argv[0].len() >= 4
                && argv[0].skip(argv[0].len() - 4) == ".vsf"@);
            if shaped && args.file is None {
                scanned(args, argv) == scanned(
                    (ArgsView { file: Some(argv[0]), ..args }),
                    argv.skip(1),
                )
            } else {
                scanned(args, argv) == scanned(
                    (ArgsView { keys: args.keys.push(argv[0]), ..args }),
                    argv.skip(1),
                )
            }
        },
        argv.len() > 0 && argv[0].len() >= 2 && argv[0][0] == '-' && argv[0][1] == '-' && argv[0]
            != "--app"@ && argv[0] != "--dir"@ && argv[0] != "--seed"@ && argv[0] != "--secret"@
            && argv[0] != "--domain"@ && argv[0] != "--addr"@ && argv[0] != "--scope"@ ==> scanned(
            args,
            argv,
        ) == Err::<ArgsView, Seq<char>>(argv[0]),
{
    if argv.len() > 0 {
        arguments_are_told_by_their_text(argv[0]);
    }
}

/// What the tool does follows from what it was given: the usage, as a failure, where that is nothing;
/// an unknown option is refused; without seed and secret the file is shown, if there is one; with all
/// four of app, directory, seed and secret the vault is opened, under these very names and for these
/// very entries; and anything less is refused.
pub proof fn commands_follow_from_the_arguments(argv: Seq<Seq<char>>)
    requires
        !asks_for_help(argv),
    ensures
        argv.len() == 0 ==> invocation(argv) == (InvocationView::Usage { exit: 1 }),
        argv.len() > 0 ==> match scanned(no_args(), argv) {
            Err(option) => invocation(argv) == (InvocationView::UnknownOption { option }),
            Ok(args) => if args.seed is None && args.secret is None {
                match args.file {
                    Some(path) => invocation(argv) == (InvocationView::ShowFile { path }),
                    None => invocation(argv) is NothingToDo,
                }
            } else if args.app_id is Some && args.app_dir is Some && args.seed is Some
                && args.secret is Some {
                invocation(argv) == (InvocationView::Decrypt {
                    id: args.app_id->0,
                    dir: args.app_dir->0,
                    seed: args.seed->0,
                    secret: args.secret->0,
                    args,
                })
            } else {
                invocation(argv) is IncompleteDecrypt
            },
        },
        no_args().app_id is None && no_args().app_dir is None && no_args().seed is None
            && no_args().secret is None && no_args().file is None && no_args().scope is None,
        no_args().keys.len() == 0 && no_args().domains.len() == 0 && no_args().addrs.len() == 0,
{
}

/// Texts seen as characters keep all of them, in order.
pub proof fn texts_are_seen_whole(texts: Seq<String>, one: Option<String>)
    ensures
        texts_seen(texts).len() == texts.len(),
        forall|i: int| 0 <= i < texts.len() ==> #[trigger] texts_seen(texts)[i] == texts[i]@,
        one matches Some(s) ==> text_seen(one) == Some(s@),
        one is None ==> text_seen(one) is None,
{
}

/// The arguments are seen as they are, each under its own name.
pub proof fn arguments_are_seen_as_they_are(a: Args)
    ensures
        a@.app_id == text_seen(a.app_id),
        a@.app_dir == text_seen(a.app_dir),
        a@.seed == text_seen(a.seed),
        a@.secret == text_seen(a.secret),
        a@.file == text_seen(a.file),
        a@.scope == text_seen(a.scope),
        a@.keys == texts_seen(a.keys@),
        a@.domains == texts_seen(a.domains@),
        a@.addrs == texts_seen(a.addrs@),
{
}

/// A command is seen as it is, each part under its own name.
pub proof fn commands_are_seen_as_they_are(a: Invocation)
    ensures
        a matches Invocation::Decrypt { id, dir, seed, secret, args } ==> (
        a@ matches InvocationView::Decrypt { id: i, dir: d, seed: s, secret: x, args: g } && i == id@
            && d == dir@ && s == seed@ && x == secret@ && g == args@),
        a matches Invocation::ShowFile { path } ==> (a@ matches InvocationView::ShowFile { path: p }
            && p == path@),
        a matches Invocation::UnknownOption { option } ==> (
        a@ matches InvocationView::UnknownOption { option: o } && o == option@),
        a matches Invocation::Usage { exit } ==> a@ == (InvocationView::Usage { exit }),
{
}

/// A command's view keeps all of it: two commands with one view do the same.
pub proof fn command_views_tell_commands_apart(a: Invocation, b: Invocation)
    requires
        a@ == b@,
    ensures
        match (a, b) {
            (Invocation::Usage { exit: x }, Invocation::Usage { exit: y }) => x == y,
            (Invocation::UnknownOption { option: x }, Invocation::UnknownOption { option: y }) => x@
                == y@,
            (Invocation::NothingToDo, Invocation::NothingToDo) => true,
            (Invocation::ShowFile { path: x }, Invocation::ShowFile { path: y }) => x@ == y@,
            (Invocation::IncompleteDecrypt, Invocation::IncompleteDecrypt) => true,
            (
                Invocation::Decrypt { id, dir, seed, secret, args },
                Invocation::Decrypt { id: id2, dir: dir2, seed: seed2, secret: secret2, args: args2 },
            ) => id@ == id2@ && dir@ == dir2@ && seed@ == seed2@ && secret@ == secret2@ && args@
                == args2@,
            _ => false,
        },
{
}

} // verus!
