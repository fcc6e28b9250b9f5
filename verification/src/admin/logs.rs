//! Preparing log text for display: the last lines of a file, times moved to
//! the local zone, lines filtered by level, and the whole cut into pages.

use vstd::prelude::*;
use crate::text::chars_of;
use crate::text::contains;
use crate::text::contains_text;
use crate::text::digit_char;
use crate::text::digit_of;
use crate::text::find_from;
use crate::text::has_prefix;
use crate::text::index_of_char;
use crate::text::lines_of;
use crate::text::owned;
use crate::text::push_all;
use crate::text::replace_all;
use crate::text::replace_first;
use crate::text::replaced_all;
use crate::text::replaced_first;
use crate::text::split_lines;
use crate::text::starts_with;
use crate::text::str_eq;
use crate::text::string_of;
use crate::text::texts;

verus! {

// ------------------------------------------------------------------ levels

/// Whether a line is shown at a level: a line shows at `error` if it holds
/// `ERROR`, at `warn` if it holds `ERROR` or `WARN`, at `info` if it holds
/// one of those or `INFO`, and at any other level always.
pub open spec fn shows_at(level: Seq<char>, line: Seq<char>) -> bool {
    if level == "error"@ {
        contains_text(line, "ERROR"@)
    } else if level == "warn"@ {
        contains_text(line, "ERROR"@) || contains_text(line, "WARN"@)
    } else if level == "info"@ {
        contains_text(line, "ERROR"@) || contains_text(line, "WARN"@) || contains_text(
            line,
            "INFO"@,
        )
    } else {
        true
    }
}

/// The lines that show at a level, each followed by a line feed.
pub open spec fn shown_lines(lines: Seq<Seq<char>>, level: Seq<char>) -> Seq<char>
    decreases lines.len(),
{
    if lines.len() == 0 {
        Seq::empty()
    } else {
        shown_lines(lines.drop_last(), level) + if shows_at(level, lines.last()) {
            lines.last().push('\n')
        } else {
            Seq::empty()
        }
    }
}

/// A log filtered by level: at the level `all` the log as it is, at any other
/// the lines that show at the level.
pub open spec fn filtered_text(content: Seq<char>, level: Seq<char>) -> Seq<char> {
    if level == "all"@ {
        content
    } else {
        shown_lines(lines_of(content), level)
    }
}

/// The levels that lines are filtered by.
#[derive(Clone, Copy, Debug, PartialEq, Eq, Structural)]
pub enum Level {
    Error,
    Warn,
    Info,
    Other,
}

/// The level with the given name.
pub open spec fn level_named(level: Seq<char>) -> Level {
    if level == "error"@ {
        Level::Error
    } else if level == "warn"@ {
        Level::Warn
    } else if level == "info"@ {
        Level::Info
    } else {
        Level::Other
    }
}

/// Whether a line shows at a level.
pub fn line_shows(level: Level, line: &Vec<char>) -> (shows: bool)
    ensures
        shows == match level {
            Level::Error => contains_text(line@, "ERROR"@),
            Level::Warn => contains_text(line@, "ERROR"@) || contains_text(line@, "WARN"@),
            Level::Info => contains_text(line@, "ERROR"@) || contains_text(line@, "WARN"@)
                || contains_text(line@, "INFO"@),
            Level::Other => true,
        },
{
    match level {
        Level::Other => true,
        _ => {
            let error = chars_of("ERROR");
            if contains(line, &error) {
                return true;
            }
            match level {
                Level::Error => false,
                _ => {
                    let warn = chars_of("WARN");
                    if contains(line, &warn) {
                        return true;
                    }
                    match level {
                        Level::Warn => false,
                        _ => {
                            let info = chars_of("INFO");
                            contains(line, &info)
                        },
                    }
                },
            }
        },
    }
}

/// Keeps the lines of a log that show at a level.
pub fn filter_by_level(content: &str, level: &str) -> (out: String)
    ensures
        out@ == filtered_text(content@, level@),
{
    if str_eq(level, "all") {
        return owned(content);
    }
    let kind = if str_eq(level, "error") {
        Level::Error
    } else if str_eq(level, "warn") {
        Level::Warn
    } else if str_eq(level, "info") {
        Level::Info
    } else {
        Level::Other
    };
    let text = chars_of(content);
    let lines = split_lines(&text);
    let ghost ls = texts(lines@);
    let mut out: Vec<char> = Vec::new();
    let mut i: usize = 0;
    proof {
        assert(ls.take(0) =~= Seq::<Seq<char>>::empty());
    }
    while i < lines.len()
        invariant
            i <= lines.len(),
            ls == texts(lines@),
            kind == level_named(level@),
            out@ == shown_lines(ls.take(i as int), level@),
        decreases lines.len() - i,
    {
        proof {
            assert(ls[i as int] == lines@[i as int]@);
            assert(ls.take(i + 1).drop_last() =~= ls.take(i as int));
            assert(ls.take(i + 1).last() == ls[i as int]);
        }
        if line_shows(kind, &lines[i]) {
            let ghost before = out@;
            push_all(&mut out, &lines[i]);
            out.push('\n');
            proof {
                assert(out@ =~= before + ls[i as int].push('\n'));
            }
        } else {
            proof {
                assert(out@ + Seq::<char>::empty() =~= out@);
            }
        }
        i = i + 1;
    }
    proof {
        assert(ls.take(ls.len() as int) =~= ls);
    }
    string_of(&out)
}

// -------------------------------------------------------------- local time

/// How many hours the local zone is ahead of UTC.
pub const LOCAL_OFFSET_HOURS: i32 = 8;

/// The value of a decimal digit.
pub open spec fn digit_value(c: char) -> Option<int> {
    if '0' <= c <= '9' {
        Some(c as int - '0' as int)
    } else {
        None
    }
}

/// The number that two characters denote as a signed decimal numeral: two
/// digits, or a sign and a digit.
pub open spec fn hour_of(a: char, b: char) -> Option<int> {
    match digit_value(b) {
        Some(low) => match digit_value(a) {
            Some(high) => Some(10 * high + low),
            None => if a == '+' {
                Some(low)
            } else if a == '-' {
                Some(-low)
            } else {
                None
            },
        },
        None => None,
    }
}

/// The hour of the local zone for an hour of UTC. For an hour below the
/// zone's lag the result is negative, as the remainder of a negative number
/// is.
pub open spec fn local_hour(hour: int) -> int {
    let h = hour + LOCAL_OFFSET_HOURS;
    if h < 0 {
        -((-h) % 24)
    } else {
        h % 24
    }
}

/// A number between -9 and 99 written in at least two characters: with a
/// leading zero if it is a single digit, with a minus sign if it is negative.
pub open spec fn two_wide(n: int) -> Seq<char> {
    if n < 0 {
        seq!['-', digit_char(-n)]
    } else {
        seq![digit_char(n / 10), digit_char(n % 10)]
    }
}

/// The time mark `T`, an hour and `:`, which a time in a log line holds.
pub open spec fn hour_mark(hour: int) -> Seq<char> {
    seq!['T'] + two_wide(hour) + seq![':']
}

/// A log line with its time moved to the local zone. A line holds a time if
/// its first `T` stands after at least eleven characters and before at least
/// eight more, and the two characters after the `T` are a number. Then the
/// first mark of that hour is replaced by the mark of the local hour, and
/// every `Z` before an escape character or a space by `+08:00`.
pub open spec fn converted_line(line: Seq<char>) -> Seq<char> {
    match index_of_char(line, 'T') {
        Some(t) => if t > 10 && line.len() > t + 8 {
            match hour_of(line[t + 1], line[t + 2]) {
                Some(hour) => {
                    let a = replace_first(line, hour_mark(hour), hour_mark(local_hour(hour)));
                    let b = replace_all(a, seq!['Z', '\u{1b}'], "+08:00"@.push('\u{1b}'));
                    replace_all(b, seq!['Z', ' '], "+08:00"@.push(' '))
                },
                None => line,
            }
        } else {
            line
        },
        None => line,
    }
}

/// The converted lines, each followed by a line feed.
pub open spec fn converted_lines(lines: Seq<Seq<char>>) -> Seq<char>
    decreases lines.len(),
{
    if lines.len() == 0 {
        Seq::empty()
    } else {
        converted_lines(lines.drop_last()) + converted_line(lines.last()).push('\n')
    }
}

/// A log with its times moved to the local zone.
pub open spec fn converted_text(content: Seq<char>) -> Seq<char> {
    converted_lines(lines_of(content))
}

/// The value of a decimal digit.
pub fn digit_value_of(c: char) -> (v: Option<i32>)
    ensures
        match v {
            Some(d) => digit_value(c) == Some(d as int) && 0 <= d <= 9,
            None => digit_value(c) is None,
        },
{
    if '0' <= c && c <= '9' {
        Some((c as u32 - '0' as u32) as i32)
    } else {
        None
    }
}

/// The number that two characters denote.
pub fn read_hour(a: char, b: char) -> (hour: Option<i32>)
    ensures
        match hour {
            Some(h) => hour_of(a, b) == Some(h as int) && -9 <= h <= 99,
            None => hour_of(a, b) is None,
        },
{
    match digit_value_of(b) {
        Some(low) => match digit_value_of(a) {
            Some(high) => Some(10 * high + low),
            None => {
                if a == '+' {
                    Some(low)
                } else if a == '-' {
                    Some(-low)
                } else {
                    None
                }
            },
        },
        None => None,
    }
}

/// The hour of the local zone for an hour of UTC.
pub fn to_local_hour(hour: i32) -> (local: i32)
    requires
        -9 <= hour <= 99,
    ensures
        local == local_hour(hour as int),
        -1 <= local <= 23,
{
    let h = hour + LOCAL_OFFSET_HOURS;
    if h < 0 {
        -((-h) % 24)
    } else {
        h % 24
    }
}

/// The mark of an hour.
pub fn make_hour_mark(hour: i32) -> (mark: Vec<char>)
    requires
        -9 <= hour <= 99,
    ensures
        mark@ == hour_mark(hour as int),
{
    let mut mark: Vec<char> = Vec::new();
    mark.push('T');
    if hour < 0 {
        mark.push('-');
        mark.push(digit_of((-hour) as u8));
    } else {
        mark.push(digit_of((hour / 10) as u8));
        mark.push(digit_of((hour % 10) as u8));
    }
    mark.push(':');
    proof {
        assert(mark@ =~= hour_mark(hour as int));
    }
    mark
}

/// Moves the time of a log line to the local zone.
pub fn convert_line(line: &Vec<char>) -> (out: Vec<char>)
    ensures
        out@ == converted_line(line@),
{
    let mut needle: Vec<char> = Vec::new();
    needle.push('T');
    proof {
        assert(needle@ =~= seq!['T']);
    }
    let mut out: Vec<char> = Vec::new();
    match find_from(line, &needle, 0) {
        Some(t) => {
            proof {
                crate::text::lemma_first_match(line@, needle@, 0);
            }
            if t > 10 && line.len() - t > 8 {
                match read_hour(line[t + 1], line[t + 2]) {
                    Some(hour) => {
                        let from = make_hour_mark(hour);
                        let to = make_hour_mark(to_local_hour(hour));
                        let a = replaced_first(line, &from, &to);
                        let mut z_esc: Vec<char> = Vec::new();
                        z_esc.push('Z');
                        z_esc.push('\u{1b}');
                        let mut zone_esc = chars_of("+08:00");
                        zone_esc.push('\u{1b}');
                        let b = replaced_all(&a, &z_esc, &zone_esc);
                        let mut z_space: Vec<char> = Vec::new();
                        z_space.push('Z');
                        z_space.push(' ');
                        let mut zone_space = chars_of("+08:00");
                        zone_space.push(' ');
                        proof {
                            assert(z_esc@ =~= seq!['Z', '\u{1b}']);
                            assert(z_space@ =~= seq!['Z', ' ']);
                        }
                        return replaced_all(&b, &z_space, &zone_space);
                    },
                    None => {},
                }
            }
        },
        None => {},
    }
    push_all(&mut out, line);
    proof {
        assert(Seq::<char>::empty() + line@ =~= line@);
    }
    out
}

/// Moves the times of a log to the local zone.
pub fn convert_utc_to_local(content: &str) -> (out: String)
    ensures
        out@ == converted_text(content@),
{
    let text = chars_of(content);
    let lines = split_lines(&text);
    let ghost ls = texts(lines@);
    let mut out: Vec<char> = Vec::new();
    let mut i: usize = 0;
    proof {
        assert(ls.take(0) =~= Seq::<Seq<char>>::empty());
    }
    while i < lines.len()
        invariant
            i <= lines.len(),
            ls == texts(lines@),
            out@ == converted_lines(ls.take(i as int)),
        decreases lines.len() - i,
    {
        proof {
            assert(ls[i as int] == lines@[i as int]@);
            assert(ls.take(i + 1).drop_last() =~= ls.take(i as int));
            assert(ls.take(i + 1).last() == ls[i as int]);
        }
        let converted = convert_line(&lines[i]);
        let ghost before = out@;
        push_all(&mut out, &converted);
        out.push('\n');
        proof {
            assert(out@ =~= before + converted@.push('\n'));
        }
        i = i + 1;
    }
    proof {
        assert(ls.take(ls.len() as int) =~= ls);
    }
    string_of(&out)
}

// ------------------------------------------------------------------ paging

/// Lines joined by line feeds, with none at the end.
pub open spec fn joined(lines: Seq<Seq<char>>) -> Seq<char>
    decreases lines.len(),
{
    if lines.len() == 0 {
        Seq::empty()
    } else if lines.len() == 1 {
        lines[0]
    } else {
        joined(lines.drop_last()).push('\n') + lines.last()
    }
}

/// The last `n` of the lines, or all of them if there are no more.
pub open spec fn last_of(lines: Seq<Seq<char>>, n: nat) -> Seq<Seq<char>> {
    if lines.len() > n {
        lines.skip(lines.len() - n)
    } else {
        lines
    }
}

/// The last `n` lines of a text, joined by line feeds.
pub open spec fn tail_text(content: Seq<char>, n: nat) -> Seq<char> {
    joined(last_of(lines_of(content), n))
}

/// The lines of page number `page`, counted from 1, of pages of `size` lines.
pub open spec fn page_lines(lines: Seq<Seq<char>>, page: nat, size: nat) -> Seq<Seq<char>> {
    let start = (page - 1) * size;
    if start < lines.len() {
        lines.subrange(
            start,
            if start + size < lines.len() {
                start + size
            } else {
                lines.len() as int
            },
        )
    } else {
        Seq::empty()
    }
}

/// How many pages of `size` lines `total` lines fill.
pub open spec fn page_count(total: nat, size: nat) -> nat {
    if total % size == 0 {
        total / size
    } else {
        total / size + 1
    }
}

/// A page of a log.
#[derive(Clone, Debug)]
pub struct LogsPage {
    pub success: bool,
    /// The lines of the page, joined by line feeds.
    pub content: String,
    /// How many lines the page holds.
    pub lines: usize,
    /// How many lines there are on all pages.
    pub total_lines: usize,
    pub page: usize,
    pub page_size: usize,
    pub total_pages: usize,
}

/// A page of a log, as contracts see it.
pub struct PageModel {
    pub success: bool,
    pub content: Seq<char>,
    pub lines: usize,
    pub total_lines: usize,
    pub page: usize,
    pub page_size: usize,
    pub total_pages: usize,
}

impl View for LogsPage {
    type V = PageModel;

    open spec fn view(&self) -> PageModel {
        PageModel {
            success: self.success,
            content: self.content@,
            lines: self.lines,
            total_lines: self.total_lines,
            page: self.page,
            page_size: self.page_size,
            total_pages: self.total_pages,
        }
    }
}

/// The text that pages are cut from: the last `lines` lines of the log, with
/// times moved to the local zone, filtered by level.
pub open spec fn prepared_text(content: Seq<char>, lines: nat, level: Seq<char>) -> Seq<char> {
    filtered_text(converted_text(tail_text(content, lines)), level)
}

/// Page number `page` of a log.
pub open spec fn page_model(
    content: Seq<char>,
    lines: usize,
    level: Seq<char>,
    page: usize,
    page_size: usize,
) -> PageModel {
    let all = lines_of(prepared_text(content, lines as nat, level));
    let shown = page_lines(all, page as nat, page_size as nat);
    PageModel {
        success: true,
        content: joined(shown),
        lines: shown.len() as usize,
        total_lines: all.len() as usize,
        page,
        page_size,
        total_pages: page_count(all.len(), page_size as nat) as usize,
    }
}

/// Joins `lines[from..to]` by line feeds.
pub fn join_lines(lines: &Vec<Vec<char>>, from: usize, to: usize) -> (out: Vec<char>)
    requires
        from <= to <= lines.len(),
    ensures
        out@ == joined(texts(lines@).subrange(from as int, to as int)),
{
    let ghost ls = texts(lines@);
    let mut out: Vec<char> = Vec::new();
    let mut i: usize = from;
    proof {
        assert(ls.subrange(from as int, from as int) =~= Seq::<Seq<char>>::empty());
    }
    while i < to
        invariant
            from <= i <= to <= lines.len(),
            ls == texts(lines@),
            out@ == joined(ls.subrange(from as int, i as int)),
        decreases to - i,
    {
        let ghost before = out@;
        proof {
            let grown = ls.subrange(from as int, i + 1);
            assert(ls[i as int] == lines@[i as int]@);
            assert(grown.drop_last() =~= ls.subrange(from as int, i as int));
            assert(grown.last() == ls[i as int]);
            if i == from {
                assert(grown[0] == ls[i as int]);
            }
        }
        if i > from {
            out.push('\n');
        }
        push_all(&mut out, &lines[i]);
        proof {
            if i == from {
                assert(out@ =~= ls[i as int]);
            }
        }
        i = i + 1;
    }
    out
}

/// The last `n` lines of a text, joined by line feeds.
pub fn tail_lines(content: &str, n: usize) -> (out: String)
    ensures
        out@ == tail_text(content@, n as nat),
{
    let text = chars_of(content);
    let lines = split_lines(&text);
    let start: usize = if lines.len() > n {
        lines.len() - n
    } else {
        0
    };
    let out = join_lines(&lines, start, lines.len());
    proof {
        let ls = texts(lines@);
        assert(ls.subrange(start as int, ls.len() as int) =~= last_of(ls, n as nat));
    }
    string_of(&out)
}

/// Cuts page number `page` out of a log.
pub fn logs_page(content: &str, lines: usize, level: &str, page: usize, page_size: usize) -> (out:
    LogsPage)
    requires
        page >= 1,
        page_size >= 1,
    ensures
        out@ == page_model(content@, lines, level@, page, page_size),
{
    let tail = tail_lines(content, lines);
    let local = convert_utc_to_local(tail.as_str());
    let filtered = filter_by_level(local.as_str(), level);
    let text = chars_of(filtered.as_str());
    let all = split_lines(&text);
    let total = all.len();
    let ghost ls = texts(all@);
    proof {
        assert(total % page_size != 0 ==> total / page_size < usize::MAX) by (nonlinear_arith)
            requires
                page_size >= 1,
                total <= usize::MAX,
        ;
    }
    let total_pages: usize = if total % page_size == 0 {
        total / page_size
    } else {
        total / page_size + 1
    };
    let before: usize = page - 1;
    let fits = before <= usize::MAX / page_size;
    proof {
        if fits {
            assert(before * page_size <= usize::MAX) by (nonlinear_arith)
                requires
                    before <= usize::MAX / page_size,
                    page_size >= 1,
            ;
        } else {
            assert(before * page_size > usize::MAX) by (nonlinear_arith)
                requires
                    before > usize::MAX / page_size,
                    page_size >= 1,
            ;
        }
    }
    let start: usize = if fits {
        before * page_size
    } else {
        total
    };
    if start < total {
        let end: usize = if page_size < total - start {
            start + page_size
        } else {
            total
        };
        let shown = join_lines(&all, start, end);
        LogsPage {
            success: true,
            content: string_of(&shown),
            lines: end - start,
            total_lines: total,
            page,
            page_size,
            total_pages,
        }
    } else {
        proof {
            assert(joined(Seq::<Seq<char>>::empty()) =~= Seq::<char>::empty());
        }
        LogsPage {
            success: true,
            content: String::new(),
            lines: 0,
            total_lines: total,
            page,
            page_size,
            total_pages,
        }
    }
}

// -------------------------------------------------------------- parameters

/// The number that a string of decimal digits denotes.
pub open spec fn digits_value(s: Seq<char>) -> nat
    decreases s.len(),
{
    if s.len() == 0 {
        0
    } else {
        digits_value(s.drop_last()) * 10 + match digit_value(s.last()) {
            Some(d) => d as nat,
            None => 0,
        }
    }
}

/// Whether a string holds decimal digits only.
pub open spec fn all_digits(s: Seq<char>) -> bool {
    forall|i: int| 0 <= i < s.len() ==> digit_value(#[trigger] s[i]) is Some
}

/// The number that a parameter denotes: decimal digits, at least one, after
/// an optional plus sign, if the number is a `usize`.
pub open spec fn parsed_count(s: Seq<char>) -> Option<usize> {
    let body = if s.len() > 0 && s[0] == '+' {
        s.skip(1)
    } else {
        s
    };
    if body.len() > 0 && all_digits(body) && digits_value(body) <= usize::MAX {
        Some(digits_value(body) as usize)
    } else {
        None
    }
}

/// The number that a parameter denotes, or `default` where the parameter is
/// missing or denotes none.
pub open spec fn count_or(param: Option<Seq<char>>, default: usize) -> usize {
    match param {
        Some(s) => match parsed_count(s) {
            Some(n) => n,
            None => default,
        },
        None => default,
    }
}

/// A string of digits denotes at least what any of its beginnings denotes.
pub proof fn lemma_digits_grow(s: Seq<char>, k: int)
    requires
        0 <= k <= s.len(),
    ensures
        digits_value(s.take(k)) <= digits_value(s),
    decreases s.len() - k,
{
    if k < s.len() {
        lemma_digits_grow(s, k + 1);
        assert(s.take(k + 1).drop_last() =~= s.take(k));
    } else {
        assert(s.take(k) =~= s);
    }
}

/// Reads a number from a parameter.
pub fn parse_count(s: &str) -> (n: Option<usize>)
    ensures
        n == parsed_count(s@),
{
    let v = chars_of(s);
    let from: usize = if v.len() > 0 && v[0] == '+' {
        1
    } else {
        0
    };
    let ghost body = v@.skip(from as int);
    proof {
        assert(v@.skip(0) =~= v@);
        assert(body == if s@.len() > 0 && s@[0] == '+' {
            s@.skip(1)
        } else {
            s@
        });
    }
    if from >= v.len() {
        return None;
    }
    let mut value: usize = 0;
    let mut i: usize = from;
    proof {
        assert(body.take(0) =~= Seq::<char>::empty());
    }
    while i < v.len()
        invariant
            from <= i <= v.len(),
            body == v@.skip(from as int),
            body == if s@.len() > 0 && s@[0] == '+' {
                s@.skip(1)
            } else {
                s@
            },
            value == digits_value(body.take(i - from)),
            forall|j: int| 0 <= j < i - from ==> digit_value(#[trigger] body[j]) is Some,
        decreases v.len() - i,
    {
        proof {
            assert(body[i - from] == v@[i as int]);
            assert(body.take(i - from + 1).drop_last() =~= body.take(i - from));
            assert(body.take(i - from + 1).last() == body[i - from]);
            lemma_digits_grow(body, i - from + 1);
        }
        match digit_value_of(v[i]) {
            Some(d) => {
                proof {
                    assert(digits_value(body.take(i - from + 1)) == value * 10 + d);
                }
                if value > (usize::MAX - d as usize) / 10 {
                    proof {
                        let m = (usize::MAX - d) as int;
                        assert(value as int * 10 > m) by (nonlinear_arith)
                            requires
                                value as int > m / 10,
                                m >= 0,
                        ;
                    }
                    return None;
                }
                proof {
                    let m = (usize::MAX - d) as int;
                    assert(value as int * 10 <= m) by (nonlinear_arith)
                        requires
                            value as int <= m / 10,
                            m >= 0,
                    ;
                }
                value = value * 10 + d as usize;
            },
            None => {
                proof {
                    assert(!all_digits(body));
                }
                return None;
            },
        }
        i = i + 1;
    }
    proof {
        assert(body.take(body.len() as int) =~= body);
        assert(all_digits(body));
    }
    Some(value)
}

/// Reads a number from a parameter that may be missing.
pub fn count_param(param: Option<&str>, default: usize) -> (n: usize)
    ensures
        n == count_or(crate::text::slice_text_of(param), default),
{
    match param {
        Some(s) => match parse_count(s) {
            Some(n) => n,
            None => default,
        },
        None => default,
    }
}

// ------------------------------------------------------------------- files

/// A file of the log directory.
#[derive(Clone, Debug)]
pub struct LogFile {
    pub name: String,
    /// When the file was last changed; any count that grows with time.
    pub modified: u64,
}

/// The index of the log file to show among the first `n` files: of the files
/// whose name begins with `kiro.`, the one changed last, and of several
/// changed at the same time the one that stands last.
pub open spec fn newest_log(files: Seq<LogFile>, n: int) -> Option<int>
    decreases n,
{
    if n <= 0 {
        None
    } else {
        let before = newest_log(files, n - 1);
        if has_prefix(files[n - 1].name@, "kiro."@) && (before is None || files[before->0].modified
            <= files[n - 1].modified) {
            Some(n - 1)
        } else {
            before
        }
    }
}

/// The path of the log file to show: the newest log file of the directory
/// `logs`, or `logs/kiro.log` where the directory holds none.
pub open spec fn log_path_text(files: Seq<LogFile>) -> Seq<char> {
    match newest_log(files, files.len() as int) {
        Some(i) => "logs/"@ + files[i].name@,
        None => "logs/kiro.log"@,
    }
}

/// The path of the log file to show.
pub fn pick_log_file(files: &Vec<LogFile>) -> (path: String)
    ensures
        path@ == log_path_text(files@),
{
    let mut best: Option<usize> = None;
    let mut i: usize = 0;
    while i < files.len()
        invariant
            i <= files.len(),
            match best {
                Some(b) => newest_log(files@, i as int) == Some(b as int) && b < i,
                None => newest_log(files@, i as int) is None,
            },
        decreases files.len() - i,
    {
        if starts_with(files[i].name.as_str(), "kiro.") {
            let later = match best {
                Some(b) => files[b].modified <= files[i].modified,
                None => true,
            };
            if later {
                best = Some(i);
            }
        }
        i = i + 1;
    }
    match best {
        Some(b) => {
            let mut path = owned("logs/");
            path.append(files[b].name.as_str());
            path
        },
        None => owned("logs/kiro.log"),
    }
}

} // verus!
