use vstd::prelude::*;
use vstd::string::*;

verus! {

/// How grave a log entry is.
#[derive(Clone, Copy, Debug, PartialEq, Eq, Structural)]
pub enum Level {
    Error,
    Info,
}

/// The log of the source adapters: it knows its file, once one was set up,
/// and words the entries; writing them is left to the caller.
#[derive(Debug)]
pub struct ScraperLog {
    pub path: Option<String>,
}

/// The word that a level is written with.
pub open spec fn level_name(level: Level) -> Seq<char> {
    match level {
        Level::Error => "ERROR"@,
        Level::Info => "INFO"@,
    }
}

/// The line for one entry: the time, the source and the level, then the
/// message.
pub open spec fn entry_text(time: Seq<char>, source: Seq<char>, level: Level, message: Seq<char>) -> Seq<
    char,
> {
    "["@ + time + "] ["@ + source + "] "@ + level_name(level) + ": "@ + message
}

/// The last `n` items of `items`; all of them where there are fewer.
pub open spec fn last_items<A>(items: Seq<A>, n: nat) -> Seq<A> {
    if n >= items.len() {
        items
    } else {
        items.skip(items.len() - n)
    }
}

impl ScraperLog {
    /// A log that writes to the file at `path`, or nowhere.
    pub fn new(path: Option<String>) -> (log: ScraperLog)
        ensures
            log.path == path,
    {
        ScraperLog { path }
    }

    /// The line that opens the log file; `time` is the date and time of the
    /// start.
    pub fn start_line(time: &str) -> (line: String)
        ensures
            line@ == "=== Scraper Log Started "@ + time@ + " ==="@,
    {
        let mut line = String::from_str("=== Scraper Log Started ");
        line.append(time);
        line.append(" ===");
        line
    }

    /// The line for one entry; `time` is the time of day.
    pub fn entry(time: &str, source: &str, level: Level, message: &str) -> (line: String)
        ensures
            line@ == entry_text(time@, source@, level, message@),
    {
        let mut line = String::from_str("[");
        line.append(time);
        line.append("] [");
        line.append(source);
        line.append("] ");
        match level {
            Level::Error => line.append("ERROR"),
            Level::Info => line.append("INFO"),
        }
        line.append(": ");
        line.append(message);
        line
    }

    /// What is shown of the log: the last `n` of its lines, or one line that
    /// says why there are none. `lines` is `None` where the file could not be
    /// read.
    pub fn recent(&self, lines: Option<Vec<String>>, n: usize) -> (shown: Vec<String>)
        ensures
            match (self.path, lines) {
                (None, _) => shown.len() == 1 && shown[0]@ == "Log not initialized"@,
                (Some(_), None) => shown.len() == 1 && shown[0]@ == "Could not read log file"@,
                (Some(_), Some(all)) => shown@ == last_items(all@, n as nat),
            },
    {
        if self.path.is_none() {
            let mut shown: Vec<String> = Vec::new();
            shown.push(String::from_str("Log not initialized"));
            return shown;
        }
        match lines {
            None => {
                let mut shown: Vec<String> = Vec::new();
                shown.push(String::from_str("Could not read log file"));
                shown
            },
            Some(all) => {
                if n >= all.len() {
                    all
                } else {
                    let mut all = all;
                    let shown = all.split_off(all.len() - n);
                    shown
                }
            },
        }
    }
}

/// The file that the log writes to, if one was set up.
pub fn get_log_path(log: &ScraperLog) -> (path: Option<String>)
    ensures
        path == log.path,
{
    crate::lists::clone_text_option(&log.path)
}

} // verus!
