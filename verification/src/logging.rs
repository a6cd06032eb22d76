//! Where the log goes.

use crate::cli::bytes_view;
use crate::unix_path::{
    absolute, has_parent_part, is_absolute, join_path, joined, joined_by_one_slash, names_parent,
    parent_parts_stand_alone,
};
use vstd::prelude::*;
use vstd::utf8::{encode_utf8, is_ascii_chars, is_ascii_chars_encode_utf8};

verus! {

/// The name of the log file.
pub const LOG_FILE: &'static str = "unidrive-mount.log";

/// What is logged where nothing else is asked for.
pub const DEFAULT_FILTER: &'static str = "info";

/// A directory that can hold state: absolute, and without `..` in it.
pub open spec fn safe_base(path: Seq<u8>) -> bool {
    absolute(path) && !has_parent_part(path)
}

/// Where the log file lies, from `$XDG_STATE_HOME` and `$HOME`.
pub open spec fn log_directory(xdg: Option<Seq<u8>>, home: Option<Seq<u8>>) -> Seq<u8> {
    match xdg {
        Some(base) if safe_base(base) => joined(base, encode_utf8("unidrive"@)),
        _ => joined(
            match home {
                Some(home) => home,
                None => encode_utf8("/tmp"@),
            },
            encode_utf8(".local/state/unidrive"@),
        ),
    }
}

/// Whether a directory can hold state: absolute, and without `..` in it.
pub fn is_safe_state_home_base(path: &[u8]) -> (r: bool)
    ensures
        r == safe_base(path@),
{
    is_absolute(path) && !names_parent(path)
}

/// Where the log file lies.
pub fn state_dir(xdg: Option<&[u8]>, home: Option<&[u8]>) -> (r: Vec<u8>)
    ensures
        r@ == log_directory(bytes_view(xdg), bytes_view(home)),
{
    if let Some(base) = xdg {
        if is_safe_state_home_base(base) {
            return join_path(base, "unidrive".as_bytes());
        }
    }
    match home {
        Some(home) => join_path(home, ".local/state/unidrive".as_bytes()),
        None => join_path("/tmp".as_bytes(), ".local/state/unidrive".as_bytes()),
    }
}

/// What the log is written to.
#[derive(Debug, Clone, Copy, PartialEq, Eq, Structural)]
pub enum Sink {
    Stderr,
    File,
}

/// The sink that is wanted for a log that is to be set up: the standard error
/// stream where the journal reads that, else a file. None is wanted for a log
/// that was set up before.
pub open spec fn wanted_sink(installed: Option<Sink>, journal_stream: bool) -> Option<Sink> {
    match installed {
        Some(_) => None,
        None => Some(
            if journal_stream {
                Sink::Stderr
            } else {
                Sink::File
            },
        ),
    }
}

/// The sink that is used where one is wanted: the standard error stream also
/// where the file, or the directory for it, cannot be had.
pub open spec fn settled_sink(wanted: Sink, file_opened: bool) -> Sink {
    if wanted is File && file_opened {
        Sink::File
    } else {
        Sink::Stderr
    }
}

/// Begins to set up the log: the sink that is wanted, none where the log was
/// set up before.
pub fn init_logging(installed: Option<Sink>, journal_stream: bool) -> (r: Option<Sink>)
    ensures
        r == wanted_sink(installed, journal_stream),
{
    if installed.is_some() {
        return None;
    }
    if journal_stream {
        Some(Sink::Stderr)
    } else {
        Some(Sink::File)
    }
}

/// Goes on with setting up the log once it is known whether the log file was
/// opened: the sink to use.
pub fn sink_for(wanted: Sink, file_opened: bool) -> (r: Sink)
    ensures
        r == settled_sink(wanted, file_opened),
{
    match wanted {
        Sink::File => if file_opened {
            Sink::File
        } else {
            Sink::Stderr
        },
        Sink::Stderr => Sink::Stderr,
    }
}

/// The sink of the log after it was set up, or set up again.
pub open spec fn sink_after(
    installed: Option<Sink>,
    journal_stream: bool,
    file_opened: bool,
) -> Option<Sink> {
    match wanted_sink(installed, journal_stream) {
        None => installed,
        Some(wanted) => Some(settled_sink(wanted, file_opened)),
    }
}

/// Setting up the log a second time changes nothing: the first sink stays.
/// That is the standard error stream where the journal reads it, else the
/// file, or the standard error stream where the file cannot be had.
pub proof fn first_sink_stays(
    journal_stream: bool,
    file_opened: bool,
    journal_stream_later: bool,
    file_opened_later: bool,
)
    ensures
        sink_after(
            sink_after(None, journal_stream, file_opened),
            journal_stream_later,
            file_opened_later,
        ) == sink_after(None, journal_stream, file_opened),
        sink_after(None, journal_stream, file_opened) == Some(
            if !journal_stream && file_opened {
                Sink::File
            } else {
                Sink::Stderr
            },
        ),
{
}

/// Whatever the environment says, a log file of a safe state directory stands
/// below it, and an unsafe one is not used.
pub proof fn unsafe_base_is_not_used(xdg: Seq<u8>, home: Option<Seq<u8>>)
    ensures
        safe_base(xdg) ==> log_directory(Some(xdg), home) == joined(
            xdg,
            encode_utf8("unidrive"@),
        ),
        !safe_base(xdg) ==> log_directory(Some(xdg), home) == log_directory(None, home),
{
}

/// The log file lies in a directory below the state directory that the
/// environment names, where that is absolute and names no parent; else below
/// that of the home directory, or of `/tmp` without one.
pub proof fn log_lies_below_the_environment(xdg: Seq<u8>, home: Seq<u8>)
    requires
        xdg.len() > 1,
        xdg.last() != 47u8,
        home.len() > 0,
        home.last() != 47u8,
    ensures
        ({
            let fallback = home + seq![47u8] + encode_utf8(".local/state/unidrive"@);
            let named = exists|a: Seq<u8>, b: Seq<u8>| #[trigger]
                (a.push(46u8).push(46u8) + b) == xdg && (a.len() == 0 || a.last() == 47u8) && (
                b.len() == 0 || b[0] == 47u8);
            &&& xdg[0] == 47u8 && !named ==> log_directory(Some(xdg), Some(home)) == xdg + seq![
                47u8,
            ] + encode_utf8("unidrive"@)
            &&& xdg[0] != 47u8 || named ==> log_directory(Some(xdg), Some(home)) == fallback
            &&& log_directory(None, Some(home)) == fallback
            &&& log_directory(None, None) == encode_utf8("/tmp"@) + seq![47u8] + encode_utf8(
                ".local/state/unidrive"@,
            )
        }),
{
    parent_parts_stand_alone(xdg);
    joined_by_one_slash(xdg, encode_utf8("unidrive"@));
    joined_by_one_slash(home, encode_utf8(".local/state/unidrive"@));
    reveal_strlit("/tmp");
    assert(is_ascii_chars("/tmp"@));
    is_ascii_chars_encode_utf8("/tmp"@);
    joined_by_one_slash(encode_utf8("/tmp"@), encode_utf8(".local/state/unidrive"@));
}

/// The log has its own file, and by default holds what is of interest.
pub proof fn the_log_has_its_file()
    ensures
        LOG_FILE@ == "unidrive-mount"@ + ".log"@,
        DEFAULT_FILTER@ == seq!['i', 'n', 'f', 'o'],
{
    reveal_strlit("unidrive-mount.log");
    reveal_strlit("unidrive-mount");
    reveal_strlit(".log");
    reveal_strlit("info");
    assert(LOG_FILE@ =~= "unidrive-mount"@ + ".log"@);
    assert(DEFAULT_FILTER@ =~= seq!['i', 'n', 'f', 'o']);
}

}
