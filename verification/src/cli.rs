//! The command line.

use crate::text::{join, join3, same};
use crate::unix_path::{concat, join_path, joined, joined_by_one_slash};
use vstd::prelude::*;
use vstd::utf8::{encode_utf8, is_ascii_chars, is_ascii_chars_encode_utf8};

verus! {

/// The help text.
pub const USAGE: &'static str =
    "Usage: unidrive-mount --mount <path> --ipc <socket> [--cache <path>] [--lock <path>]\n\
     \n\
     Options:\n\
     \x20\x20--mount <path>   Filesystem mount point (an existing empty directory).\n\
     \x20\x20--ipc <socket>   Unix-domain-socket path to the unidrive JVM IpcServer.\n\
     \x20\x20--cache <path>   LocalCache root for crash-recovery scan at startup.\n\
     \x20\x20                 Defaults to $XDG_CACHE_HOME/unidrive/hydration, or\n\
     \x20\x20                 $HOME/.cache/unidrive/hydration if XDG_CACHE_HOME unset.\n\
     \x20\x20--lock <path>    Per-profile lock file. When supplied, the co-daemon\n\
     \x20\x20                 acquires its own flock(2) on this path for the session,\n\
     \x20\x20                 closing the kill -9 race with the JVM-side ProcessLock.\n\
     \x20\x20--help           Show this message and exit.\n";

/// The help text.
pub fn usage() -> (r: &'static str)
    ensures
        r@ == USAGE@,
{
    USAGE
}

/// What the command line asks for.
#[derive(Debug)]
pub struct Cli {
    pub mount: String,
    pub ipc: String,
    /// The cache root, where one is given.
    pub cache: Option<String>,
    pub lock: Option<String>,
}

/// Why nothing is run: a mistake, or a question for help. Either carries what
/// is shown.
#[derive(Debug)]
pub enum CliError {
    Usage(String),
    Help(String),
}

/// The options met so far, with their texts in `S`.
pub struct Options<S> {
    pub mount: Option<S>,
    pub ipc: Option<S>,
    pub cache: Option<S>,
    pub lock: Option<S>,
}

/// A [`Cli`] as it is seen.
pub struct CliView {
    pub mount: Seq<char>,
    pub ipc: Seq<char>,
    pub cache: Option<Seq<char>>,
    pub lock: Option<Seq<char>>,
}

/// A [`CliError`] as it is seen.
pub enum CliErrorView {
    Usage(Seq<char>),
    Help(Seq<char>),
}

/// An optional text as it is seen.
pub open spec fn option_view(s: Option<String>) -> Option<Seq<char>> {
    match s {
        Some(s) => Some(s@),
        None => None,
    }
}

impl View for Cli {
    type V = CliView;

    open spec fn view(&self) -> CliView {
        CliView {
            mount: self.mount@,
            ipc: self.ipc@,
            cache: option_view(self.cache),
            lock: option_view(self.lock),
        }
    }
}

impl View for CliError {
    type V = CliErrorView;

    open spec fn view(&self) -> CliErrorView {
        match self {
            CliError::Usage(s) => CliErrorView::Usage(s@),
            CliError::Help(s) => CliErrorView::Help(s@),
        }
    }
}

impl View for Options<String> {
    type V = Options<Seq<char>>;

    open spec fn view(&self) -> Options<Seq<char>> {
        Options {
            mount: option_view(self.mount),
            ipc: option_view(self.ipc),
            cache: option_view(self.cache),
            lock: option_view(self.lock),
        }
    }
}

/// The arguments as they are seen.
pub open spec fn arg_views(argv: Seq<String>) -> Seq<Seq<char>> {
    argv.map_values(|s: String| s@)
}

/// A complaint, followed by the help text.
pub open spec fn complaint(what: Seq<char>) -> CliErrorView {
    CliErrorView::Usage(what + "\n"@ + USAGE@)
}

/// `arg` is an option that takes a value.
pub open spec fn takes_value(arg: Seq<char>) -> bool {
    arg == "--mount"@ || arg == "--ipc"@ || arg == "--cache"@ || arg == "--lock"@
}

/// The options after one more was met. The last of two with one name counts.
pub open spec fn with_option(
    opts: Options<Seq<char>>,
    name: Seq<char>,
    value: Seq<char>,
) -> Options<Seq<char>> {
    if name == "--mount"@ {
        Options { mount: Some(value), ..opts }
    } else if name == "--ipc"@ {
        Options { ipc: Some(value), ..opts }
    } else if name == "--cache"@ {
        Options { cache: Some(value), ..opts }
    } else {
        Options { lock: Some(value), ..opts }
    }
}

/// What all options together ask for: a mount point and a socket are needed.
pub open spec fn settled(opts: Options<Seq<char>>) -> Result<CliView, CliErrorView> {
    match (opts.mount, opts.ipc) {
        (None, _) => Err(complaint("missing required --mount"@)),
        (_, None) => Err(complaint("missing required --ipc"@)),
        (Some(mount), Some(ipc)) => Ok(
            CliView { mount, ipc, cache: opts.cache, lock: opts.lock },
        ),
    }
}

/// What the arguments from the `i`-th on ask for, after the options met so
/// far. The first thing that is wrong, or asks for help, decides.
pub open spec fn parsed_from(args: Seq<Seq<char>>, i: int, opts: Options<Seq<char>>) -> Result<
    CliView,
    CliErrorView,
>
    decreases args.len() - i,
{
    if i >= args.len() {
        settled(opts)
    } else if args[i] == "--help"@ || args[i] == "-h"@ {
        Err(CliErrorView::Help(USAGE@))
    } else if takes_value(args[i]) {
        if i + 1 >= args.len() {
            Err(complaint(args[i] + " requires a value"@))
        } else {
            parsed_from(args, i + 2, with_option(opts, args[i], args[i + 1]))
        }
    } else {
        Err(complaint("unknown argument: "@ + args[i]))
    }
}

/// What a command line asks for. Its first argument is the program's name.
pub open spec fn parsed_args(args: Seq<Seq<char>>) -> Result<CliView, CliErrorView> {
    parsed_from(args, 1, Options { mount: None, ipc: None, cache: None, lock: None })
}

fn usage_error(what: &str) -> (r: CliError)
    ensures
        r@ == complaint(what@),
{
    CliError::Usage(join3(what, "\n", USAGE))
}

/// Reads a command line. Its first argument is the program's name.
pub fn parse_args(argv: &[String]) -> (r: Result<Cli, CliError>)
    ensures
        match r {
            Ok(cli) => parsed_args(arg_views(argv@)) == Ok::<CliView, CliErrorView>(cli@),
            Err(e) => parsed_args(arg_views(argv@)) == Err::<CliView, CliErrorView>(e@),
        },
{
    let ghost args = arg_views(argv@);
    let mut opts: Options<String> = Options { mount: None, ipc: None, cache: None, lock: None };
    let mut i: usize = 1;
    while i < argv.len()
        invariant
            1 <= i,
            args == arg_views(argv@),
            parsed_args(args) == parsed_from(args, i as int, opts@),
        decreases argv@.len() - i,
    {
        assert(args.len() == argv@.len());
        assert(args[i as int] == argv@[i as int]@);
        let arg = argv[i].as_str();
        if same(arg, "--help") || same(arg, "-h") {
            return Err(CliError::Help(USAGE.to_owned()));
        }
        if !(same(arg, "--mount") || same(arg, "--ipc") || same(arg, "--cache") || same(
            arg,
            "--lock",
        )) {
            let what = join("unknown argument: ", arg);
            return Err(usage_error(what.as_str()));
        }
        if i == argv.len() - 1 {
            let what = join(arg, " requires a value");
            return Err(usage_error(what.as_str()));
        }
        assert(args[i + 1] == argv@[i + 1]@);
        let value = argv[i + 1].clone();
        let ghost before = opts@;
        if same(arg, "--mount") {
            opts.mount = Some(value);
        } else if same(arg, "--ipc") {
            opts.ipc = Some(value);
        } else if same(arg, "--cache") {
            opts.cache = Some(value);
        } else {
            opts.lock = Some(value);
        }
        assert(opts@ == with_option(before, args[i as int], args[i + 1]));
        if i >= argv.len() - 2 {
            i = argv.len();
        } else {
            i = i + 2;
        }
    }
    assert(args.len() == argv@.len());
    assert(parsed_from(args, i as int, opts@) == settled(opts@));
    let mount = match opts.mount {
        Some(mount) => mount,
        None => return Err(usage_error("missing required --mount")),
    };
    let ipc = match opts.ipc {
        Some(ipc) => ipc,
        None => return Err(usage_error("missing required --ipc")),
    };
    Ok(Cli { mount, ipc, cache: opts.cache, lock: opts.lock })
}

/// The cache root that is taken where none is given, from `$XDG_CACHE_HOME`
/// and `$HOME`.
pub open spec fn default_cache(xdg: Option<Seq<u8>>, home: Option<Seq<u8>>) -> Seq<u8> {
    let unidrive = encode_utf8("unidrive"@);
    let hydration = encode_utf8("hydration"@);
    match (xdg, home) {
        (Some(xdg), _) => joined(joined(xdg, unidrive), hydration),
        (None, Some(home)) => joined(
            joined(joined(home, encode_utf8(".cache"@)), unidrive),
            hydration,
        ),
        (None, None) => encode_utf8(".cache/unidrive/hydration"@),
    }
}

/// Optional bytes as they are seen.
pub open spec fn bytes_view(b: Option<&[u8]>) -> Option<Seq<u8>> {
    match b {
        Some(b) => Some(b@),
        None => None,
    }
}

/// The cache root that is taken where none is given.
pub fn default_cache_root(xdg: Option<&[u8]>, home: Option<&[u8]>) -> (r: Vec<u8>)
    ensures
        r@ == default_cache(bytes_view(xdg), bytes_view(home)),
{
    if let Some(xdg) = xdg {
        let dir = join_path(xdg, "unidrive".as_bytes());
        return join_path(dir.as_slice(), "hydration".as_bytes());
    }
    if let Some(home) = home {
        let cache = join_path(home, ".cache".as_bytes());
        let dir = join_path(cache.as_slice(), "unidrive".as_bytes());
        return join_path(dir.as_slice(), "hydration".as_bytes());
    }
    let r = concat(".cache/unidrive/hydration".as_bytes(), &[]);
    assert(r@ =~= encode_utf8(".cache/unidrive/hydration"@));
    r
}

impl Cli {
    /// The cache root: the given one, or the default.
    pub fn cache_root(&self, xdg: Option<&[u8]>, home: Option<&[u8]>) -> (r: Vec<u8>)
        ensures
            r@ == match self@.cache {
                Some(given) => encode_utf8(given),
                None => default_cache(bytes_view(xdg), bytes_view(home)),
            },
    {
        match &self.cache {
            Some(given) => {
                let r = concat(given.as_str().as_bytes(), &[]);
                assert(r@ =~= encode_utf8(given@));
                r
            },
            None => default_cache_root(xdg, home),
        }
    }
}

/// A mount point and a socket are all that is needed, in either order, and
/// whatever they are.
pub proof fn required_options_suffice(program: Seq<char>, mount: Seq<char>, ipc: Seq<char>)
    ensures
        parsed_args(seq![program, "--mount"@, mount, "--ipc"@, ipc]) == Ok::<CliView, CliErrorView>(
            CliView { mount, ipc, cache: None, lock: None },
        ),
        parsed_args(seq![program, "--ipc"@, ipc, "--mount"@, mount]) == Ok::<CliView, CliErrorView>(
            CliView { mount, ipc, cache: None, lock: None },
        ),
{
    lemma_option_names();
    reveal_with_fuel(parsed_from, 4);
}

/// The names of options are different.
proof fn lemma_option_names()
    ensures
        "--mount"@ != "--help"@,
        "--mount"@ != "-h"@,
        "--ipc"@ != "--help"@,
        "--ipc"@ != "-h"@,
        "--ipc"@ != "--mount"@,
{
    reveal_strlit("--mount");
    reveal_strlit("--help");
    reveal_strlit("-h");
    reveal_strlit("--ipc");
    assert("--mount"@.len() == 7);
    assert("--help"@.len() == 6);
    assert("--ipc"@.len() == 5);
    assert("-h"@.len() == 2);
}

/// A question for help that comes before anything wrong is answered with the
/// help text, whatever follows.
pub proof fn help_wins(program: Seq<char>, rest: Seq<Seq<char>>)
    ensures
        parsed_args(seq![program, "--help"@] + rest) == Err::<CliView, CliErrorView>(
            CliErrorView::Help(USAGE@),
        ),
{
}

/// The value that is given last for an option among the first `n` pairs behind
/// the program's name.
pub open spec fn last_given(args: Seq<Seq<char>>, n: nat, name: Seq<char>) -> Option<Seq<char>>
    decreases n,
{
    if n == 0 {
        None
    } else if args[2 * n - 1] == name {
        Some(args[2 * n as int])
    } else {
        last_given(args, (n - 1) as nat, name)
    }
}

/// The first `n` pairs behind the program's name are options with values.
pub open spec fn in_pairs(args: Seq<Seq<char>>, n: nat) -> bool {
    &&& 2 * n + 1 <= args.len()
    &&& forall|k: int|
        #![trigger args[2 * k + 1]]
        0 <= k < n ==> args[2 * k + 1] == "--mount"@ || args[2 * k + 1] == "--ipc"@ || args[2 * k
            + 1] == "--cache"@ || args[2 * k + 1] == "--lock"@
}

proof fn lemma_all_option_names()
    ensures
        "--mount"@.len() == 7 && "--mount"@[2] == 'm',
        "--cache"@.len() == 7 && "--cache"@[2] == 'c',
        "--ipc"@.len() == 5,
        "--lock"@.len() == 6 && "--lock"@[2] == 'l',
        "--help"@.len() == 6 && "--help"@[2] == 'h',
        "-h"@.len() == 2,
{
    reveal_strlit("--mount");
    reveal_strlit("--cache");
    reveal_strlit("--ipc");
    reveal_strlit("--lock");
    reveal_strlit("--help");
    reveal_strlit("-h");
}

proof fn lemma_pairs(args: Seq<Seq<char>>, n: nat)
    requires
        in_pairs(args, n),
    ensures
        parsed_args(args) == parsed_from(
            args,
            2 * n as int + 1,
            Options {
                mount: last_given(args, n, "--mount"@),
                ipc: last_given(args, n, "--ipc"@),
                cache: last_given(args, n, "--cache"@),
                lock: last_given(args, n, "--lock"@),
            },
        ),
    decreases n,
{
    lemma_all_option_names();
    if n > 0 {
        let m = (n - 1) as nat;
        assert(in_pairs(args, m));
        lemma_pairs(args, m);
        assert(args[2 * (n - 1) + 1] == args[2 * n - 1]);
    }
}

/// A command line is read pair by pair: of each option the value that is given
/// last counts. After pairs that are right, it is at its end, where a mount
/// point and a socket are needed and all else may be missing; or it asks for
/// help; or it lacks a value; or it names what is no option. Each complaint says
/// what is wrong, and shows the help.
pub proof fn command_lines_are_read_in_pairs(args: Seq<Seq<char>>, n: nat)
    requires
        in_pairs(args, n),
    ensures
        ({
            let r = parsed_args(args);
            let mount = last_given(args, n, "--mount"@);
            let ipc = last_given(args, n, "--ipc"@);
            let next = args[2 * n as int + 1];
            let option = next == "--mount"@ || next == "--ipc"@ || next == "--cache"@ || next
                == "--lock"@;
            let help = next == "--help"@ || next == "-h"@;
            &&& args.len() == 2 * n + 1 && mount is Some && ipc is Some ==> ({
                &&& r matches Ok(cli)
                &&& Some(cli.mount) == mount
                &&& Some(cli.ipc) == ipc
                &&& cli.cache == last_given(args, n, "--cache"@)
                &&& cli.lock == last_given(args, n, "--lock"@)
            })
            &&& args.len() == 2 * n + 1 && mount is None ==> r == Err::<CliView, CliErrorView>(
                CliErrorView::Usage("missing required --mount"@ + "\n"@ + USAGE@),
            )
            &&& args.len() == 2 * n + 1 && mount is Some && ipc is None ==> r == Err::<
                CliView,
                CliErrorView,
            >(CliErrorView::Usage("missing required --ipc"@ + "\n"@ + USAGE@))
            &&& args.len() > 2 * n + 1 && help ==> r == Err::<CliView, CliErrorView>(
                CliErrorView::Help(USAGE@),
            )
            &&& args.len() == 2 * n + 2 && option ==> r == Err::<CliView, CliErrorView>(
                CliErrorView::Usage(next + " requires a value"@ + "\n"@ + USAGE@),
            )
            &&& args.len() > 2 * n + 1 && !option && !help ==> r == Err::<CliView, CliErrorView>(
                CliErrorView::Usage("unknown argument: "@ + next + "\n"@ + USAGE@),
            )
        }),
{
    lemma_pairs(args, n);
    lemma_all_option_names();
}

/// The cache root that is taken where none is given lies below the cache
/// directory that the environment names, or below that of the home directory.
pub proof fn default_cache_lies_below_the_environment(xdg: Seq<u8>, home: Seq<u8>)
    requires
        xdg.len() > 0,
        xdg.last() != 47u8,
        home.len() > 0,
        home.last() != 47u8,
    ensures
        ({
            let tail = seq![47u8] + encode_utf8("unidrive"@) + seq![47u8] + encode_utf8(
                "hydration"@,
            );
            &&& default_cache(Some(xdg), Some(home)) == xdg + tail
            &&& default_cache(Some(xdg), None) == xdg + tail
            &&& default_cache(None, Some(home)) == home + seq![47u8] + encode_utf8(".cache"@) + tail
            &&& default_cache(None, None) == encode_utf8(".cache/unidrive/hydration"@)
        }),
{
    reveal_strlit("unidrive");
    reveal_strlit(".cache");
    let u = encode_utf8("unidrive"@);
    let h = encode_utf8("hydration"@);
    let c = encode_utf8(".cache"@);
    assert(is_ascii_chars("unidrive"@));
    assert(is_ascii_chars(".cache"@));
    is_ascii_chars_encode_utf8("unidrive"@);
    is_ascii_chars_encode_utf8(".cache"@);
    assert(u.len() == 8 && u.last() != 47u8);
    assert(c.len() == 6 && c.last() != 47u8);
    let tail = seq![47u8] + u + seq![47u8] + h;
    joined_by_one_slash(xdg, u);
    joined_by_one_slash(joined(xdg, u), h);
    assert(default_cache(Some(xdg), None) =~= xdg + tail);
    joined_by_one_slash(home, c);
    joined_by_one_slash(joined(home, c), u);
    joined_by_one_slash(joined(joined(home, c), u), h);
    assert(default_cache(None, Some(home)) =~= home + seq![47u8] + c + tail);
}

/// A cache root that is given is taken as it is.
pub proof fn given_cache_root_is_taken(
    cli: Cli,
    xdg: Option<&[u8]>,
    home: Option<&[u8]>,
    r: Vec<u8>,
)
    requires
        call_ensures(Cli::cache_root, (&cli, xdg, home), r),
    ensures
        cli.cache matches Some(given) ==> r@ == encode_utf8(given@),
        cli.cache is None ==> r@ == default_cache(bytes_view(xdg), bytes_view(home)),
{
}

}
