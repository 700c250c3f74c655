use vstd::prelude::*;
use vstd::string::StringExecFns;

verus! {

/// Log severities, most severe first.
#[derive(Clone, Copy, Debug, PartialEq, Eq, Structural)]
pub enum Level {
    Error,
    Warn,
    Info,
    Debug,
    Trace,
}

/// A level's place in the severity order: smaller is more severe.
pub open spec fn spec_level_rank(l: Level) -> int {
    match l {
        Level::Error => 1,
        Level::Warn => 2,
        Level::Info => 3,
        Level::Debug => 4,
        Level::Trace => 5,
    }
}

/// A level's display name.
pub open spec fn spec_level_name(l: Level) -> Seq<char> {
    match l {
        Level::Error => "ERROR"@,
        Level::Warn => "WARN"@,
        Level::Info => "INFO"@,
        Level::Debug => "DEBUG"@,
        Level::Trace => "TRACE"@,
    }
}

/// What follows the last path separator; the whole name when there is
/// none. This is how a record's source file is shown.
pub open spec fn spec_basename(s: Seq<char>) -> Seq<char>
    decreases s.len(),
{
    if s.len() == 0 {
        s
    } else if s.last() == '/' {
        Seq::empty()
    } else {
        spec_basename(s.drop_last()).push(s.last())
    }
}

/// A name without separators is its own base name.
proof fn lemma_basename_no_slash(s: Seq<char>)
    requires
        forall|i: int| 0 <= i < s.len() ==> s[i] != '/',
    ensures
        spec_basename(s) == s,
    decreases s.len(),
{
    if s.len() > 0 {
        lemma_basename_no_slash(s.drop_last());
        assert(spec_basename(s) =~= s);
    }
}

/// The base name is what follows the last separator.
proof fn lemma_basename_after_slash(s: Seq<char>, k: int)
    requires
        0 <= k < s.len(),
        s[k] == '/',
        forall|j: int| k < j < s.len() ==> s[j] != '/',
    ensures
        spec_basename(s) == s.skip(k + 1),
    decreases s.len(),
{
    if k == s.len() - 1 {
        assert(spec_basename(s) =~= s.skip(k + 1));
    } else {
        lemma_basename_after_slash(s.drop_last(), k);
        assert(s.drop_last().skip(k + 1) =~= s.skip(k + 1).drop_last());
        assert(spec_basename(s) =~= s.skip(k + 1));
    }
}

/// What follows the last `/` of a path, or the path itself without one.
pub fn basename(path: &str) -> (r: String)
    ensures
        r@ == spec_basename(path@),
{
    let n = path.unicode_len();
    let mut last_slash: Option<usize> = None;
    let mut i: usize = 0;
    while i < n
        invariant
            i <= n,
            n == path@.len(),
            match last_slash {
                Some(k) => k < i && path@[k as int] == '/' && (forall|j: int|
                    k < j < i ==> path@[j] != '/'),
                None => forall|j: int| 0 <= j < i ==> path@[j] != '/',
            },
        decreases n - i,
    {
        if path.get_char(i) == '/' {
            last_slash = Some(i);
        }
        i = i + 1;
    }
    match last_slash {
        Some(k) => {
            proof {
                lemma_basename_after_slash(path@, k as int);
            }
            let r = path.substring_char(k + 1, n).to_owned();
            proof {
                assert(path@.subrange(k + 1, n as int) =~= path@.skip(k + 1));
            }
            r
        },
        None => {
            proof {
                lemma_basename_no_slash(path@);
            }
            path.to_owned()
        },
    }
}

/// The process logger: filters by severity and formats one line per
/// record. Writing the line out is the caller's business.
pub struct Logger;

impl Logger {
    /// A record is shown only at `Info` severity or above.
    pub fn enabled(&self, level: Level) -> (r: bool)
        ensures
            r == (spec_level_rank(level) <= spec_level_rank(Level::Info)),
    {
        match level {
            Level::Error => true,
            Level::Warn => true,
            Level::Info => true,
            Level::Debug => false,
            Level::Trace => false,
        }
    }

    /// A level's display name.
    pub fn level_name(level: Level) -> (r: &'static str)
        ensures
            r@ == spec_level_name(level),
    {
        match level {
            Level::Error => "ERROR",
            Level::Warn => "WARN",
            Level::Info => "INFO",
            Level::Debug => "DEBUG",
            Level::Trace => "TRACE",
        }
    }

    /// One log line: the level, the record's file shown by its base name
    /// (`unknown` when the record has none), and the message.
    pub fn format_record(&self, level: Level, file: Option<&String>, message: &str) -> (r: String)
        ensures
            r@ == "["@ + spec_level_name(level) + "] ["@ + (match file {
                Some(f) => spec_basename(f@),
                None => "unknown"@,
            }) + "] - "@ + message@,
    {
        let mut out = "[".to_owned();
        out.append(Logger::level_name(level));
        out.append("] [");
        match file {
            Some(f) => {
                let base = basename(f.as_str());
                out.append(base.as_str());
            },
            None => {
                out.append("unknown");
            },
        }
        out.append("] - ");
        out.append(message);
        proof {
            assert(out@ =~= "["@ + spec_level_name(level) + "] ["@ + (match file {
                Some(f) => spec_basename(f@),
                None => "unknown"@,
            }) + "] - "@ + message@);
        }
        out
    }
}

} // verus!
