use vstd::prelude::*;

verus! {

/// The severity of a log message, from least to most severe.
#[derive(Debug, Copy, Clone, PartialEq, Eq, PartialOrd, Ord)]
pub enum LogLevel {
    Debug,
    Verbose,
    Info,
    Warn,
    Error,
    Fatal,
}

/// The place of a level in the order of severity.
pub open spec fn severity(level: LogLevel) -> nat {
    match level {
        LogLevel::Debug => 0,
        LogLevel::Verbose => 1,
        LogLevel::Info => 2,
        LogLevel::Warn => 3,
        LogLevel::Error => 4,
        LogLevel::Fatal => 5,
    }
}

/// The ANSI escape that colours a level's messages.
pub open spec fn ansi_of(level: LogLevel) -> Seq<char> {
    match level {
        LogLevel::Debug => "\x1b[38;5;6m"@,
        LogLevel::Verbose => "\x1b[38;5;8m"@,
        LogLevel::Info => "\x1b[39m"@,
        LogLevel::Warn => "\x1b[38;5;3m"@,
        LogLevel::Error => "\x1b[38;5;1m"@,
        LogLevel::Fatal => "\x1b[38;5;0;48;5;1m"@,
    }
}

/// The tag in front of a level's messages.
pub open spec fn prefix_of(level: LogLevel) -> Seq<char> {
    match level {
        LogLevel::Debug => "[DBG] "@,
        LogLevel::Verbose => "[VRB] "@,
        LogLevel::Info => "[INF] "@,
        LogLevel::Warn => "[WRN] "@,
        LogLevel::Error => "[ERR] "@,
        LogLevel::Fatal => "[FTL] "@,
    }
}

impl LogLevel {
    pub fn severity(self) -> (r: u8)
        ensures
            r == severity(self),
    {
        match self {
            LogLevel::Debug => 0,
            LogLevel::Verbose => 1,
            LogLevel::Info => 2,
            LogLevel::Warn => 3,
            LogLevel::Error => 4,
            LogLevel::Fatal => 5,
        }
    }

    pub fn as_ansi(self) -> (r: &'static str)
        ensures
            r@ == ansi_of(self),
    {
        match self {
            LogLevel::Debug => "\x1b[38;5;6m",
            LogLevel::Verbose => "\x1b[38;5;8m",
            LogLevel::Info => "\x1b[39m",
            LogLevel::Warn => "\x1b[38;5;3m",
            LogLevel::Error => "\x1b[38;5;1m",
            LogLevel::Fatal => "\x1b[38;5;0;48;5;1m",
        }
    }

    pub fn as_pre(self) -> (r: &'static str)
        ensures
            r@ == prefix_of(self),
    {
        match self {
            LogLevel::Debug => "[DBG] ",
            LogLevel::Verbose => "[VRB] ",
            LogLevel::Info => "[INF] ",
            LogLevel::Warn => "[WRN] ",
            LogLevel::Error => "[ERR] ",
            LogLevel::Fatal => "[FTL] ",
        }
    }

    /// Whether messages of this level go to the error stream rather than to standard output.
    pub fn to_error_stream(self) -> (r: bool)
        ensures
            r == (severity(self) >= 3),
    {
        self.severity() >= 3
    }
}

/// Where log messages go and which of them pass.
#[derive(Debug, Copy, Clone)]
pub struct Logger {
    use_ansi_color: bool,
    minimum_level: LogLevel,
}

impl Logger {
    pub closed spec fn spec_color(&self) -> bool {
        self.use_ansi_color
    }

    pub closed spec fn spec_minimum(&self) -> LogLevel {
        self.minimum_level
    }

    /// The text that a message of `level` becomes: `None` below the minimum level, else the
    /// colour escape where colour is on, the level's tag, and the message.
    pub open spec fn line_of(&self, level: LogLevel, message: Seq<char>) -> Option<Seq<char>> {
        if severity(level) < severity(self.spec_minimum()) {
            None
        } else {
            Some(
                (if self.spec_color() {
                    ansi_of(level)
                } else {
                    Seq::<char>::empty()
                }) + prefix_of(level) + message,
            )
        }
    }

    /// Whether `r` is the text owed for a message of `level`.
    pub open spec fn renders(&self, r: Option<String>, level: LogLevel, message: Seq<char>) -> bool {
        match self.line_of(level, message) {
            None => r is None,
            Some(l) => r matches Some(s) && s@ == l,
        }
    }

    pub fn new(use_ansi_color: bool, minimum_level: LogLevel) -> (r: Logger)
        ensures
            r.spec_color() == use_ansi_color,
            r.spec_minimum() == minimum_level,
    {
        Logger { use_ansi_color, minimum_level }
    }

    /// The text to write for a message of `level`, or `None` where it does not pass.
    pub fn log(self, level: LogLevel, message: &str) -> (r: Option<String>)
        ensures
            self.renders(r, level, message@),
    {
        if level.severity() < self.minimum_level.severity() {
            return None;
        }
        let mut out = if self.use_ansi_color {
            String::from_str(level.as_ansi())
        } else {
            String::new()
        };
        out.append(level.as_pre());
        out.append(message);
        Some(out)
    }

    pub fn debug(self, message: &str) -> (r: Option<String>)
        ensures
            self.renders(r, LogLevel::Debug, message@),
    {
        self.log(LogLevel::Debug, message)
    }

    pub fn verbose(self, message: &str) -> (r: Option<String>)
        ensures
            self.renders(r, LogLevel::Verbose, message@),
    {
        self.log(LogLevel::Verbose, message)
    }

    pub fn info(self, message: &str) -> (r: Option<String>)
        ensures
            self.renders(r, LogLevel::Info, message@),
    {
        self.log(LogLevel::Info, message)
    }

    pub fn warn(self, message: &str) -> (r: Option<String>)
        ensures
            self.renders(r, LogLevel::Warn, message@),
    {
        self.log(LogLevel::Warn, message)
    }

    pub fn error(self, message: &str) -> (r: Option<String>)
        ensures
            self.renders(r, LogLevel::Error, message@),
    {
        self.log(LogLevel::Error, message)
    }

    pub fn fatal(self, message: &str) -> (r: Option<String>)
        ensures
            self.renders(r, LogLevel::Fatal, message@),
    {
        self.log(LogLevel::Fatal, message)
    }
}

} // verus!
