use vstd::prelude::*;

verus! {

/// The editing mode of the line editor.
#[derive(Clone, Copy, Debug, PartialEq, Eq, Structural)]
pub enum LineMode {
    Insert,
    Normal,
}

/// What the right-hand side of the prompt can be set to show.
#[derive(Clone, Copy, Debug, PartialEq, Eq, Structural)]
pub enum Showing {
    Time,
    Date,
    Spotify,
    Strava,
}

impl Showing {
    /// The display at a position of the cycle; positions wrap around after four.
    pub open spec fn at(position: nat) -> Showing {
        if position % 4 == 0 {
            Showing::Time
        } else if position % 4 == 1 {
            Showing::Date
        } else if position % 4 == 2 {
            Showing::Spotify
        } else {
            Showing::Strava
        }
    }
}

/// Which display the prompt is currently set to.
pub struct KPromptState {
    showing: usize,
}

impl KPromptState {
    #[verifier::type_invariant]
    spec fn in_cycle(self) -> bool {
        self.showing < 4
    }

    /// The position in the cycle of displays, from 0 to 3.
    pub closed spec fn position(self) -> nat {
        self.showing as nat
    }

    /// A state that shows the first display.
    pub fn new() -> (state: Self)
        ensures
            state.position() == 0,
    {
        KPromptState { showing: 0 }
    }

    /// Moves on to the next display, and from the last back to the first.
    pub fn cycle(&mut self)
        ensures
            final(self).position() == (old(self).position() + 1) % 4,
    {
        proof {
            use_type_invariant(&*self);
        }
        self.showing = (self.showing + 1) % 4;
    }

    /// The display that is currently chosen.
    pub fn showing(&self) -> (shown: Showing)
        ensures
            self.position() < 4,
            shown == Showing::at(self.position()),
    {
        proof {
            use_type_invariant(self);
        }
        if self.showing == 0 {
            Showing::Time
        } else if self.showing == 1 {
            Showing::Date
        } else if self.showing == 2 {
            Showing::Spotify
        } else {
            Showing::Strava
        }
    }
}

/// The colour of a piece of the prompt.
#[derive(Clone, Copy, Debug, PartialEq, Eq, Structural)]
pub enum Tint {
    Green,
    Blue,
    Yellow,
    Cyan,
    DarkCyan,
    Red,
    Rgb(u8, u8, u8),
}

/// How a piece of the prompt is drawn: its colour, if it has one, and
/// whether it is bold.
#[derive(Clone, Copy, Debug, PartialEq, Eq, Structural)]
pub struct Style {
    pub color: Option<Tint>,
    pub bold: bool,
}

/// A piece of the prompt: some text, drawn in one style.
#[derive(Debug)]
pub struct Span {
    pub text: String,
    pub style: Style,
}

/// A piece of the prompt as contracts speak of it.
pub struct Piece {
    pub text: Seq<char>,
    pub style: Style,
}

impl View for Span {
    type V = Piece;

    open spec fn view(&self) -> Piece {
        Piece { text: self.text@, style: self.style }
    }
}

/// Text without colour or weight.
pub open spec fn plain(text: Seq<char>) -> Piece {
    Piece { text, style: Style { color: None, bold: false } }
}

/// Text in a colour.
pub open spec fn tinted(text: Seq<char>, color: Tint) -> Piece {
    Piece { text, style: Style { color: Some(color), bold: false } }
}

/// Bold text in a colour.
pub open spec fn bold(text: Seq<char>, color: Tint) -> Piece {
    Piece { text, style: Style { color: Some(color), bold: true } }
}

/// The pieces that a list of spans stands for, in order.
pub open spec fn pieces(spans: Seq<Span>) -> Seq<Piece> {
    spans.map_values(|span: Span| span@)
}

/// The character of a decimal digit.
pub open spec fn digit(d: nat) -> char {
    if d == 0 {
        '0'
    } else if d == 1 {
        '1'
    } else if d == 2 {
        '2'
    } else if d == 3 {
        '3'
    } else if d == 4 {
        '4'
    } else if d == 5 {
        '5'
    } else if d == 6 {
        '6'
    } else if d == 7 {
        '7'
    } else if d == 8 {
        '8'
    } else {
        '9'
    }
}

/// A number written in decimal, without leading zeros.
pub open spec fn decimal_text(n: nat) -> Seq<char>
    decreases n,
{
    if n < 10 {
        seq![digit(n)]
    } else {
        decimal_text(n / 10).push(digit(n % 10))
    }
}

/// A number written in decimal, with a minus sign in front where it is negative.
pub open spec fn signed_text(n: int) -> Seq<char> {
    if n < 0 {
        seq!['-'] + decimal_text((-n) as nat)
    } else {
        decimal_text(n as nat)
    }
}

fn digit_str(d: u64) -> (text: &'static str)
    requires
        d < 10,
    ensures
        text@ == seq![digit(d as nat)],
{
    proof {
        reveal_strlit("0");
        reveal_strlit("1");
        reveal_strlit("2");
        reveal_strlit("3");
        reveal_strlit("4");
        reveal_strlit("5");
        reveal_strlit("6");
        reveal_strlit("7");
        reveal_strlit("8");
        reveal_strlit("9");
    }
    let text = if d == 0 {
        "0"
    } else if d == 1 {
        "1"
    } else if d == 2 {
        "2"
    } else if d == 3 {
        "3"
    } else if d == 4 {
        "4"
    } else if d == 5 {
        "5"
    } else if d == 6 {
        "6"
    } else if d == 7 {
        "7"
    } else if d == 8 {
        "8"
    } else {
        "9"
    };
    assert(text@ =~= seq![digit(d as nat)]);
    text
}

/// Writes a number in decimal.
pub fn decimal(n: u64) -> (text: String)
    ensures
        text@ == decimal_text(n as nat),
    decreases n,
{
    if n < 10 {
        String::from_str(digit_str(n))
    } else {
        let mut text = decimal(n / 10);
        text.append(digit_str(n % 10));
        assert(text@ =~= decimal_text((n / 10) as nat).push(digit((n % 10) as nat)));
        text
    }
}

/// Writes a number in decimal, with its sign where it is negative.
pub fn signed_decimal(n: i32) -> (text: String)
    ensures
        text@ == signed_text(n as int),
{
    if n < 0 {
        proof {
            reveal_strlit("-");
        }
        let magnitude: u64 = (-(n as i64)) as u64;
        let mut text = String::from_str("-");
        let digits = decimal(magnitude);
        text.append(digits.as_str());
        assert(text@ =~= seq!['-'] + decimal_text((-n) as nat));
        text
    } else {
        decimal(n as u64)
    }
}

/// A number below a hundred written with two digits.
pub open spec fn two_digits(n: nat) -> Seq<char> {
    seq![digit(n / 10), digit(n % 10)]
}

/// A time of day on the twelve-hour clock: the hour without padding, the
/// minute with two digits, then `am` or `pm`.
pub open spec fn clock_text(hour: nat, minute: nat) -> Seq<char> {
    let shown_hour: nat = if hour % 12 == 0 {
        12
    } else {
        hour % 12
    };
    decimal_text(shown_hour) + seq![':'] + two_digits(minute) + seq![' '] + (if hour < 12 {
        seq!['a', 'm']
    } else {
        seq!['p', 'm']
    })
}

/// Calls `chrono::NaiveTime::from_hms_opt` with no seconds, and on the time
/// that comes back `format` with `%-I:%M %P`.
///
/// Not proved, but taken from `chrono`'s table of format specifiers: `%-I`
/// is the hour of the twelve-hour clock from 1 to 12 without padding, `%M`
/// the minute with two digits, `%P` is `am` before noon and `pm` from noon.
#[verifier::external_body]
fn clock(hour: u32, minute: u32) -> (text: String)
    requires
        hour < 24,
        minute < 60,
    ensures
        text@ == clock_text(hour as nat, minute as nat),
{
    match chrono::NaiveTime::from_hms_opt(hour, minute, 0) {
        Some(time) => time.format("%-I:%M %P").to_string(),
        None => String::new(),
    }
}

/// A time of day, to the minute.
#[derive(Clone, Copy, Debug)]
pub struct ClockTime {
    hour: u32,
    minute: u32,
}

impl ClockTime {
    #[verifier::type_invariant]
    spec fn on_the_dial(self) -> bool {
        self.hour < 24 && self.minute < 60
    }

    /// The hour, from 0 to 23.
    pub closed spec fn hour(self) -> nat {
        self.hour as nat
    }

    /// The minute, from 0 to 59.
    pub closed spec fn minute(self) -> nat {
        self.minute as nat
    }

    /// The time at this hour and minute, if there is such a time of day.
    pub fn new(hour: u32, minute: u32) -> (time: Option<Self>)
        ensures
            match time {
                Some(time) => hour < 24 && minute < 60 && time.hour() == hour && time.minute()
                    == minute,
                None => hour >= 24 || minute >= 60,
            },
    {
        if hour < 24 && minute < 60 {
            Some(ClockTime { hour, minute })
        } else {
            None
        }
    }

    /// Writes the time as the prompt shows it.
    pub fn text(&self) -> (text: String)
        ensures
            self.hour() < 24,
            self.minute() < 60,
            text@ == clock_text(self.hour(), self.minute()),
    {
        proof {
            use_type_invariant(self);
        }
        clock(self.hour, self.minute)
    }
}

/// The branch as the prompt shows it: between a branch sign and a blank, or
/// nothing outside a repository.
pub open spec fn branch_text(branch: Option<&str>) -> Seq<char> {
    match branch {
        Some(name) => "\u{f126} "@ + name@ + " "@,
        None => Seq::empty(),
    }
}

/// A count of commits behind its mark, or nothing where the count is zero or
/// not known.
pub open spec fn count_text(mark: Seq<char>, count: Option<u32>) -> Seq<char> {
    match count {
        Some(n) => if n == 0 {
            Seq::empty()
        } else {
            mark + decimal_text(n as nat)
        },
        None => Seq::empty(),
    }
}

/// What the prompt says of the repository: the branch, then how far it is
/// behind its remote, then how far ahead.
pub open spec fn git_text(branch: Option<&str>, behind: Option<u32>, ahead: Option<u32>) -> Seq<
    char,
> {
    branch_text(branch) + count_text("\u{21e3}"@, behind) + count_text("\u{21e1}"@, ahead)
}

/// The sign for the editing mode.
pub open spec fn indicator(mode: LineMode) -> Piece {
    match mode {
        LineMode::Insert => tinted("\u{1f346}"@, Tint::Cyan),
        LineMode::Normal => tinted("\u{1f4a6}"@, Tint::Yellow),
    }
}

/// The left-hand prompt: a first line with the directory and the state of
/// the repository, and a second line with the sign for the editing mode.
pub open spec fn left_prompt(
    mode: LineMode,
    pwd: &str,
    branch: Option<&str>,
    behind: Option<u32>,
    ahead: Option<u32>,
) -> Seq<Piece> {
    seq![
        tinted("\u{256d}\u{2500} "@, Tint::Green),
        tinted("\u{f07c} "@, Tint::Blue),
        bold(pwd@, Tint::Blue),
        plain(" "@),
        tinted(git_text(branch, behind, ahead), Tint::Yellow),
        plain("\n"@),
        tinted("\u{2570}\u{2500} "@, Tint::Green),
        indicator(mode),
        plain(" "@),
    ]
}

/// The exit status that the prompt goes by: the command's own, or -1 where
/// it left none.
pub open spec fn shown_status(status: Option<i32>) -> i32 {
    match status {
        Some(code) => code,
        None => -1i32,
    }
}

/// How the last command ended: a green tick after exit status zero, else the
/// status in red.
pub open spec fn status_piece(status: Option<i32>) -> Piece {
    if shown_status(status) == 0 {
        tinted("\u{f00c}"@, Tint::Green)
    } else {
        tinted(signed_text(shown_status(status) as int), Tint::Red)
    }
}

/// How long the last command ran: its whole seconds in red, once it ran for
/// a second or more; else nothing.
pub open spec fn time_piece(command_secs: Option<u64>) -> Piece {
    match command_secs {
        Some(secs) => if secs < 1 {
            tinted(Seq::empty(), Tint::Blue)
        } else {
            tinted(decimal_text(secs as nat) + "s"@, Tint::Rgb(255, 0, 0))
        },
        None => plain(Seq::empty()),
    }
}

/// The right-hand prompt: a first line with the last command's status and
/// running time and the time of day, and a second line with the cursor's place.
pub open spec fn right_prompt(
    status: Option<i32>,
    command_secs: Option<u64>,
    local_time: ClockTime,
    cursor: usize,
) -> Seq<Piece> {
    seq![
        status_piece(status),
        plain(" "@),
        time_piece(command_secs),
        plain(" "@),
        bold(clock_text(local_time.hour(), local_time.minute()), Tint::DarkCyan),
        tinted(" \u{f43a}"@, Tint::DarkCyan),
        tinted(" \u{2500}\u{256e}"@, Tint::Green),
        plain("\n"@),
        tinted("\u{ea96} "@, Tint::DarkCyan),
        tinted(decimal_text(cursor as nat), Tint::DarkCyan),
        tinted(" \u{2500}\u{256f}"@, Tint::Green),
    ]
}

fn put(spans: &mut Vec<Span>, text: String, color: Option<Tint>, bold: bool)
    ensures
        pieces(final(spans)@) == pieces(old(spans)@).push(
            Piece { text: text@, style: Style { color, bold } },
        ),
{
    let ghost before = spans@;
    let span = Span { text, style: Style { color, bold } };
    spans.push(span);
    assert(spans@ == before.push(span));
    assert(pieces(spans@) =~= pieces(before).push(span@));
}

fn marked_count(mark: &str, count: Option<u32>) -> (text: String)
    ensures
        text@ == count_text(mark@, count),
{
    match count {
        Some(n) => {
            if n == 0 {
                String::new()
            } else {
                let mut text = String::from_str(mark);
                let digits = decimal(n as u64);
                text.append(digits.as_str());
                text
            }
        },
        None => String::new(),
    }
}

/// Writes what the prompt says of the repository.
///
/// `branch` is the current branch, `behind` and `ahead` the counts of
/// commits against the remote; each is `None` where it could not be had.
pub fn git_info(branch: Option<&str>, behind: Option<u32>, ahead: Option<u32>) -> (text: String)
    ensures
        text@ == git_text(branch, behind, ahead),
{
    let mut text = match branch {
        Some(name) => {
            let mut text = String::from_str("\u{f126} ");
            text.append(name);
            text.append(" ");
            text
        },
        None => String::new(),
    };
    assert(text@ =~= branch_text(branch));
    let behind_text = marked_count("\u{21e3}", behind);
    let ahead_text = marked_count("\u{21e1}", ahead);
    text.append(behind_text.as_str());
    text.append(ahead_text.as_str());
    text
}

/// The two-line prompt.
pub struct KPrompt;

impl KPrompt {
    /// Lays out the left-hand prompt.
    ///
    /// `pwd` is the working directory as it is to be shown; the rest is as
    /// for [`git_info`].
    pub fn prompt_left(
        &self,
        mode: LineMode,
        pwd: &str,
        branch: Option<&str>,
        behind: Option<u32>,
        ahead: Option<u32>,
    ) -> (spans: Vec<Span>)
        ensures
            pieces(spans@) == left_prompt(mode, pwd, branch, behind, ahead),
    {
        let mut spans: Vec<Span> = Vec::new();
        assert(pieces(spans@) =~= Seq::<Piece>::empty());
        put(&mut spans, String::from_str("\u{256d}\u{2500} "), Some(Tint::Green), false);
        put(&mut spans, String::from_str("\u{f07c} "), Some(Tint::Blue), false);
        put(&mut spans, String::from_str(pwd), Some(Tint::Blue), true);
        put(&mut spans, String::from_str(" "), None, false);
        put(&mut spans, git_info(branch, behind, ahead), Some(Tint::Yellow), false);
        put(&mut spans, String::from_str("\n"), None, false);
        put(&mut spans, String::from_str("\u{2570}\u{2500} "), Some(Tint::Green), false);
        match mode {
            LineMode::Insert => {
                put(&mut spans, String::from_str("\u{1f346}"), Some(Tint::Cyan), false);
            },
            LineMode::Normal => {
                put(&mut spans, String::from_str("\u{1f4a6}"), Some(Tint::Yellow), false);
            },
        }
        put(&mut spans, String::from_str(" "), None, false);
        assert(pieces(spans@) =~= left_prompt(mode, pwd, branch, behind, ahead));
        spans
    }

    /// Lays out the right-hand prompt.
    ///
    /// `status` is the last command's exit status, if it left one;
    /// `command_secs` its running time in whole seconds, if that was
    /// measured; `local_time` the time of day; `cursor` the cursor's place
    /// in the line.
    pub fn prompt_right(
        &self,
        status: Option<i32>,
        command_secs: Option<u64>,
        local_time: ClockTime,
        cursor: usize,
    ) -> (spans: Vec<Span>)
        ensures
            pieces(spans@) == right_prompt(status, command_secs, local_time, cursor),
    {
        let mut spans: Vec<Span> = Vec::new();
        assert(pieces(spans@) =~= Seq::<Piece>::empty());
        let code: i32 = match status {
            Some(code) => code,
            None => -1,
        };
        if code == 0 {
            put(&mut spans, String::from_str("\u{f00c}"), Some(Tint::Green), false);
        } else {
            put(&mut spans, signed_decimal(code), Some(Tint::Red), false);
        }
        put(&mut spans, String::from_str(" "), None, false);
        match command_secs {
            Some(secs) => {
                if secs < 1 {
                    put(&mut spans, String::new(), Some(Tint::Blue), false);
                } else {
                    let mut text = decimal(secs);
                    text.append("s");
                    put(&mut spans, text, Some(Tint::Rgb(255, 0, 0)), false);
                }
            },
            None => {
                put(&mut spans, String::new(), None, false);
            },
        }
        put(&mut spans, String::from_str(" "), None, false);
        put(&mut spans, local_time.text(), Some(Tint::DarkCyan), true);
        put(&mut spans, String::from_str(" \u{f43a}"), Some(Tint::DarkCyan), false);
        put(&mut spans, String::from_str(" \u{2500}\u{256e}"), Some(Tint::Green), false);
        put(&mut spans, String::from_str("\n"), None, false);
        put(&mut spans, String::from_str("\u{ea96} "), Some(Tint::DarkCyan), false);
        put(&mut spans, decimal(cursor as u64), Some(Tint::DarkCyan), false);
        put(&mut spans, String::from_str(" \u{2500}\u{256f}"), Some(Tint::Green), false);
        assert(pieces(spans@) =~= right_prompt(status, command_secs, local_time, cursor));
        spans
    }
}

} // verus!
