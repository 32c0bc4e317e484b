//! The high-score ledger: one line of text for each game that was played
//! to the end, and the ranking that is read back from those lines.

use crate::score::{total_of, Score};
use crate::text::{
    append_blanks, blanks, decimal, drop_blanks, is_blank, is_digit, lemma_decimal_len,
    lemma_decimal_value, number, read_number, right_aligned, right_aligned_text, skip_blanks,
    trimmed,
};
use chrono::Local;
use vstd::prelude::*;
use vstd::string::*;

verus! {

/// The length to which a name is padded.
pub const NAME_WIDTH: usize = 24;

/// The length of a date.
pub const DATE_WIDTH: usize = 10;

/// The length of the score where the score has no more than three digits.
pub const SCORE_WIDTH: usize = 3;

/// The length of the end of a line: the date, a blank, a `|` and the
/// score.
pub const TAIL_WIDTH: usize = 15;

/// Why a name is not taken.
#[derive(Clone, Copy, PartialEq, Eq, Structural, Debug)]
pub enum NameError {
    /// The name has no character.
    Empty,
    /// The name has more than 24 characters.
    TooLong,
}

/// Why a line of the ledger cannot be read.
#[derive(Clone, Copy, PartialEq, Eq, Structural, Debug)]
pub enum LedgerError {
    /// The line has a name and less than 15 characters.
    TooShort,
    /// The last three characters of the line are not a number.
    NotANumber,
}

/// Why `name` is not taken, or `None` for a name of 1 to 24 characters.
pub open spec fn name_error(name: Seq<char>) -> Option<NameError> {
    if name.len() < 1 {
        Some(NameError::Empty)
    } else if name.len() > 24 {
        Some(NameError::TooLong)
    } else {
        None
    }
}

/// The name, followed by blanks up to 24 characters.
pub open spec fn padded_name(name: Seq<char>) -> Seq<char> {
    name + blanks(24 - name.len())
}

/// The score as a line holds it: its decimal digits, after blanks where it
/// has less than three.
pub open spec fn score_field(total: nat) -> Seq<char> {
    right_aligned(total, 3)
}

/// The first ten characters of a date, or all of a shorter one.
pub open spec fn date_field(date: Seq<char>) -> Seq<char> {
    if date.len() > 10 {
        date.subrange(0, 10)
    } else {
        date
    }
}

/// A line of the ledger: the name, `|`, a blank, the date, a blank, `|`
/// and the score.
pub open spec fn entry_line(name: Seq<char>, date: Seq<char>, total: nat) -> Seq<char> {
    name + seq!['|', ' '] + date + seq![' ', '|'] + score_field(total)
}

/// The path of `part` below `base`: the two are joined by a `/` unless
/// `base` is empty or ends with one.
pub open spec fn joined(base: Seq<char>, part: Seq<char>) -> Seq<char> {
    if base.len() > 0 && base.last() != '/' {
        base + seq!['/'] + part
    } else {
        base + part
    }
}

/// The directory of the ledger for a player whose home directory is
/// `home`.
pub open spec fn ledger_dir(home: Seq<char>) -> Seq<char> {
    joined(joined(home, ".config"@), "rusty-yacht"@)
}

/// The file of the ledger for a player whose home directory is `home`.
pub open spec fn ledger_path(home: Seq<char>) -> Seq<char> {
    joined(ledger_dir(home), "highscore"@)
}

/// Whether a character ends the name of a line.
pub open spec fn is_mark(c: char) -> bool {
    c == '#' || c == '|'
}

/// The place of the first `#` or `|` at or after `from`, or the length of
/// the line where there is none.
pub open spec fn first_mark(line: Seq<char>, from: int) -> int
    decreases line.len() - from,
{
    if from >= line.len() {
        line.len() as int
    } else if is_mark(line[from]) {
        from
    } else {
        first_mark(line, from + 1)
    }
}

/// The name of a line: what stands before the first `#` or `|`.
pub open spec fn name_of(line: Seq<char>) -> Seq<char> {
    line.subrange(0, first_mark(line, 0))
}

/// An entry of the ledger as plain values.
pub struct EntryView {
    pub score: nat,
    pub date: Seq<char>,
    pub name: Seq<char>,
}

/// What a line of the ledger holds. A line without a name, such as an
/// empty line or one that starts with `#`, holds no entry. In any other line
/// the last three characters are the score, the ten characters that end
/// five before the end of the line are the date, and the name is what
/// stands before the first `#` or `|`.
pub open spec fn parsed(line: Seq<char>) -> Result<Option<EntryView>, LedgerError> {
    let length = line.len() as int;
    if name_of(line).len() == 0 {
        Ok(None)
    } else if length < 15 {
        Err(LedgerError::TooShort)
    } else {
        match number(trimmed(line.subrange(length - 3, length))) {
            Some(score) => Ok(
                Some(
                    EntryView {
                        score,
                        date: line.subrange(length - 15, length - 5),
                        name: name_of(line),
                    },
                ),
            ),
            None => Err(LedgerError::NotANumber),
        }
    }
}

/// How many entries at the head of the list, from `from` on, have at
/// least `score` points: the place where an entry with `score` points goes.
pub open spec fn place_for(list: Seq<EntryView>, score: nat, from: int) -> int
    decreases list.len() - from,
{
    if 0 <= from < list.len() && list[from].score >= score {
        place_for(list, score, from + 1)
    } else {
        from
    }
}

/// The list with one more entry, put behind the entries that have as many
/// points or more.
pub open spec fn ranked_insert(list: Seq<EntryView>, entry: EntryView) -> Seq<EntryView> {
    list.insert(place_for(list, entry.score, 0), entry)
}

/// Whether no entry has more points than an entry before it.
pub open spec fn descending(list: Seq<EntryView>) -> bool {
    forall|i: int, j: int| 0 <= i <= j < list.len() ==> list[i].score >= list[j].score
}

/// The ranking that the first `n` lines of a ledger give, or the error of
/// the first of them that cannot be read.
pub open spec fn ranking(lines: Seq<Seq<char>>, n: int) -> Result<Seq<EntryView>, LedgerError>
    decreases n,
{
    if n <= 0 {
        Ok(Seq::empty())
    } else {
        match ranking(lines, n - 1) {
            Err(error) => Err(error),
            Ok(list) => match parsed(lines[n - 1]) {
                Err(error) => Err(error),
                Ok(None) => Ok(list),
                Ok(Some(entry)) => Ok(ranked_insert(list, entry)),
            },
        }
    }
}

/// The lines as sequences of characters.
pub open spec fn texts(lines: Seq<String>) -> Seq<Seq<char>> {
    lines.map_values(|line: String| line@)
}

/// The entries as plain values.
pub open spec fn entry_views(entries: Seq<HighscoreEntry>) -> Seq<EntryView> {
    entries.map_values(|entry: HighscoreEntry| entry@)
}

/// An entry of the ledger.
#[derive(Debug, PartialEq, Eq)]
pub struct HighscoreEntry {
    pub score: u32,
    pub date: String,
    pub name: String,
}

impl Clone for HighscoreEntry {
    fn clone(&self) -> (copy: Self)
        ensures
            copy@ == self@,
    {
        HighscoreEntry { score: self.score, date: self.date.clone(), name: self.name.clone() }
    }
}

impl View for HighscoreEntry {
    type V = EntryView;

    open spec fn view(&self) -> EntryView {
        EntryView { score: self.score as nat, date: self.date@, name: self.name@ }
    }
}

/// Reads the clock with `chrono::Local::now` and writes the local date of
/// that moment as text, as `chrono::Date` displays it: the year in four
/// digits or more, the month and the day in two digits each, with `-`
/// between them, and the offset of the time zone behind. So the text has
/// ten characters at least. Nothing is claimed of the day that it names.
#[allow(deprecated)]
#[verifier::external_body]
fn today() -> (date: String)
    ensures
        date@.len() >= 10,
{
    Local::now().date().to_string()
}

/// Asks `dirs::home_dir` for the home directory of the player and hands
/// its path on as text. There is none where `dirs` finds none, and none
/// where the path is not valid Unicode. Nothing is claimed of the path.
#[verifier::external_body]
fn home_dir() -> (home: Option<String>) {
    match dirs::home_dir() {
        Some(path) => path.into_os_string().into_string().ok(),
        None => None,
    }
}

/// The path of `part` below `base`.
fn join(base: String, part: &str) -> (path: String)
    ensures
        path@ == joined(base@, part@),
{
    let mut path = base;
    let length = path.as_str().unicode_len();
    if length > 0 && path.as_str().get_char(length - 1) != '/' {
        proof {
            reveal_strlit("/");
        }
        path.append("/");
    }
    path.append(part);
    path
}

/// Whether a character ends the name of a line.
fn mark(c: char) -> (yes: bool)
    ensures
        yes == is_mark(c),
{
    c == '#' || c == '|'
}

/// Once a line cannot be read, no later line mends the ranking.
proof fn lemma_ranking_fails(lines: Seq<Seq<char>>, n: int, m: int)
    requires
        n <= m,
        ranking(lines, n) is Err,
    ensures
        ranking(lines, m) == ranking(lines, n),
    decreases m - n,
{
    if n < m {
        lemma_ranking_fails(lines, n, m - 1);
    }
}

/// The place that `place_for` finds lies in the list, the entries before
/// it have at least `score` points, and the entry at it has less.
pub proof fn lemma_place_for(list: Seq<EntryView>, score: nat, from: int)
    requires
        0 <= from <= list.len(),
    ensures
        from <= place_for(list, score, from) <= list.len(),
        forall|i: int| from <= i < place_for(list, score, from) ==> list[i].score >= score,
        place_for(list, score, from) < list.len() ==> list[place_for(list, score, from)].score
            < score,
    decreases list.len() - from,
{
    if from < list.len() && list[from].score >= score {
        lemma_place_for(list, score, from + 1);
    }
}

/// A ranking takes a new entry behind every entry with as many points or
/// more and before every entry with less: it stays a ranking, and entries
/// with equal points stay in the order in which they came.
pub proof fn lemma_ranked_insert(list: Seq<EntryView>, entry: EntryView)
    requires
        descending(list),
    ensures
        descending(ranked_insert(list, entry)),
        ranked_insert(list, entry).len() == list.len() + 1,
        0 <= place_for(list, entry.score, 0) <= list.len(),
        ranked_insert(list, entry)[place_for(list, entry.score, 0)] == entry,
        forall|i: int|
            0 <= i < place_for(list, entry.score, 0) ==> #[trigger] ranked_insert(list, entry)[i]
                == list[i] && list[i].score >= entry.score,
        forall|i: int|
            place_for(list, entry.score, 0) <= i < list.len() ==> #[trigger] ranked_insert(
                list,
                entry,
            )[i + 1] == list[i] && list[i].score < entry.score,
{
    lemma_place_for(list, entry.score, 0);
}

/// What is read from a ledger is a ranking: no entry has more points than
/// an entry before it.
pub proof fn lemma_ranking_descending(lines: Seq<Seq<char>>, n: int)
    ensures
        ranking(lines, n) matches Ok(list) ==> descending(list),
    decreases n,
{
    if n > 0 {
        lemma_ranking_descending(lines, n - 1);
        match ranking(lines, n - 1) {
            Ok(list) => match parsed(lines[n - 1]) {
                Ok(Some(entry)) => lemma_ranked_insert(list, entry),
                _ => {},
            },
            _ => {},
        }
    }
}

/// A name without `#` and `|` that is followed by `|` is the name of the
/// line.
proof fn lemma_first_mark(line: Seq<char>, from: int, end: int)
    requires
        0 <= from <= end < line.len(),
        forall|i: int| from <= i < end ==> !is_mark(#[trigger] line[i]),
        is_mark(line[end]),
    ensures
        first_mark(line, from) == end,
    decreases end - from,
{
    if from < end {
        lemma_first_mark(line, from + 1, end);
    }
}

/// The score of a line, without the blanks before it, is the digits of
/// the score.
proof fn lemma_score_field_trimmed(total: nat)
    requires
        total <= 999,
    ensures
        score_field(total).len() == 3,
        trimmed(score_field(total)) == decimal(total),
{
    lemma_decimal_len(total);
    lemma_decimal_value(total);
    let field = score_field(total);
    let lead = 3 - decimal(total).len();
    assert(!is_blank(field[lead]) && !is_blank(field[2]));
    reveal_with_fuel(skip_blanks, 4);
    reveal_with_fuel(drop_blanks, 4);
}

/// What is written is read back: a line that was made of a name without
/// `#` and `|`, a date of ten characters and a score of at most 999 holds
/// that name, that date and that score.
pub proof fn lemma_round_trip(name: Seq<char>, date: Seq<char>, total: nat)
    requires
        name.len() >= 1,
        forall|i: int| 0 <= i < name.len() ==> !is_mark(#[trigger] name[i]),
        date.len() == 10,
        total <= 999,
    ensures
        parsed(entry_line(name, date, total)) == Ok::<Option<EntryView>, LedgerError>(
            Some(EntryView { score: total, date, name }),
        ),
{
    let line = entry_line(name, date, total);
    let length = line.len() as int;
    lemma_score_field_trimmed(total);
    lemma_decimal_value(total);
    lemma_decimal_len(total);
    lemma_first_mark(line, 0, name.len() as int);
    assert(name_of(line) =~= name);
    assert(line.subrange(length - 3, length) =~= score_field(total));
    assert(line.subrange(length - 15, length - 5) =~= date);
    assert(decimal(total)[0] != '+');
}

/// Lines are of one width: the line that is written for a name of 1 to 24
/// characters, a date of ten characters or more and a total of at most 999
/// has 41 characters, of which the padded name takes the first 24.
pub proof fn lemma_line_width(name: Seq<char>, date: Seq<char>, total: nat)
    requires
        name_error(name) is None,
        date.len() >= 10,
        total <= 999,
    ensures
        padded_name(name).len() == 24,
        date_field(date).len() == 10,
        score_field(total).len() == 3,
        entry_line(padded_name(name), date_field(date), total).len() == 41,
{
    lemma_decimal_len(total);
}

/// A game that was logged is read back: the line that is written for a
/// name of 1 to 24 characters without `#` and `|`, a date of ten
/// characters or more and a total of at most 999 holds the padded name, the
/// first ten characters of the date and the total.
pub proof fn lemma_logged_is_read_back(name: Seq<char>, date: Seq<char>, total: nat)
    requires
        name_error(name) is None,
        forall|i: int| 0 <= i < name.len() ==> !is_mark(#[trigger] name[i]),
        date.len() >= 10,
        total <= 999,
    ensures
        parsed(entry_line(padded_name(name), date_field(date), total)) == Ok::<
            Option<EntryView>,
            LedgerError,
        >(Some(EntryView { score: total, date: date_field(date), name: padded_name(name) })),
{
    let padded = padded_name(name);
    assert forall|i: int| 0 <= i < padded.len() implies !is_mark(#[trigger] padded[i]) by {
        assert(i < name.len() ==> padded[i] == name[i]);
    }
    lemma_round_trip(padded, date_field(date), total);
}

/// The ledger of high scores.
pub struct Highscore;

impl Highscore {
    /// The directory that holds the ledger of a player whose home
    /// directory is `home`: `.config/rusty-yacht` below it.
    pub fn config_dir(home: &str) -> (dir: String)
        ensures
            dir@ == ledger_dir(home@),
    {
        join(join(String::from_str(home), ".config"), "rusty-yacht")
    }

    /// The file that holds the ledger of a player whose home directory is
    /// `home`: `highscore` in the directory of the ledger.
    pub fn path_in(home: &str) -> (path: String)
        ensures
            path@ == ledger_path(home@),
    {
        join(Self::config_dir(home), "highscore")
    }

    /// The directory and the file of the ledger of the player, or `None`
    /// for a player without a home directory. Whatever the home directory
    /// is, the two are what `paths_for` gives for it.
    pub fn new_path() -> (path: Option<(String, String)>)
        ensures
            path matches Some((dir, file)) ==> exists|home: Seq<char>|
                dir@ == #[trigger] ledger_dir(home) && file@ == ledger_path(home),
    {
        Self::paths_for(home_dir())
    }

    /// The directory and the file of the ledger for what is known of the
    /// home directory of the player: with a home directory, what
    /// `config_dir` and `path_in` give for it, and without one, neither.
    pub fn paths_for(home: Option<String>) -> (path: Option<(String, String)>)
        ensures
            match path {
                Some((dir, file)) => home matches Some(below) && dir@ == ledger_dir(below@)
                    && file@ == ledger_path(below@),
                None => home is None,
            },
    {
        match home {
            Some(home) => Some((Self::config_dir(home.as_str()), Self::path_in(home.as_str()))),
            None => None,
        }
    }

    /// The score as a line holds it and as the table of high scores shows
    /// it: at the right of three characters, or longer where it has more
    /// digits.
    pub fn score_text(total: u32) -> (text: String)
        ensures
            text@ == score_field(total as nat),
    {
        right_aligned_text(total, SCORE_WIDTH)
    }

    /// Takes a name of 1 to 24 characters and pads it with blanks to 24.
    pub fn pad_name(name: &str) -> (padded: Result<String, NameError>)
        ensures
            match padded {
                Ok(text) => name_error(name@) is None && text@ == padded_name(name@),
                Err(error) => name_error(name@) == Some(error),
            },
    {
        let length = name.unicode_len();
        if length < 1 {
            Err(NameError::Empty)
        } else if length > NAME_WIDTH {
            Err(NameError::TooLong)
        } else {
            let mut text = String::from_str(name);
            append_blanks(&mut text, NAME_WIDTH - length);
            Ok(text)
        }
    }

    /// Reads the lines of a ledger and ranks its entries: the highest
    /// score first, and of two equal scores first the one that the ledger
    /// holds first. Fails on the first line that cannot be read.
    pub fn new(lines: &Vec<String>) -> (highscore: Result<Vec<HighscoreEntry>, LedgerError>)
        ensures
            match highscore {
                Ok(entries) => ranking(texts(lines@), lines@.len() as int) == Ok::<
                    Seq<EntryView>,
                    LedgerError,
                >(entry_views(entries@)),
                Err(error) => ranking(texts(lines@), lines@.len() as int) == Err::<
                    Seq<EntryView>,
                    LedgerError,
                >(error),
            },
    {
        let mut entries: Vec<HighscoreEntry> = Vec::new();
        let mut i: usize = 0;
        assert(entry_views(entries@) =~= Seq::empty());
        while i < lines.len()
            invariant
                i <= lines@.len(),
                ranking(texts(lines@), i as int) == Ok::<Seq<EntryView>, LedgerError>(
                    entry_views(entries@),
                ),
            decreases lines@.len() - i,
        {
            match Self::parse_line(lines[i].as_str()) {
                Err(error) => {
                    proof {
                        lemma_ranking_fails(texts(lines@), i as int + 1, lines@.len() as int);
                    }
                    return Err(error);
                },
                Ok(None) => {},
                Ok(Some(entry)) => {
                    let ghost before = entry_views(entries@);
                    let mut place: usize = 0;
                    while place < entries.len() && entries[place].score >= entry.score
                        invariant
                            place <= entries@.len(),
                            before == entry_views(entries@),
                            place_for(before, entry@.score, 0) == place_for(
                                before,
                                entry@.score,
                                place as int,
                            ),
                        decreases entries@.len() - place,
                    {
                        place += 1;
                    }
                    let ghost added = entry@;
                    entries.insert(place, entry);
                    assert(entry_views(entries@) =~= ranked_insert(before, added));
                },
            }
            i += 1;
        }
        Ok(entries)
    }

    /// Reads a line of the ledger.
    pub fn parse_line(line: &str) -> (entry: Result<Option<HighscoreEntry>, LedgerError>)
        ensures
            match entry {
                Ok(Some(found)) => parsed(line@) == Ok::<Option<EntryView>, LedgerError>(Some(found@)),
                Ok(None) => parsed(line@) == Ok::<Option<EntryView>, LedgerError>(None),
                Err(error) => parsed(line@) == Err::<Option<EntryView>, LedgerError>(error),
            },
    {
        let length = line.unicode_len();
        let mut end: usize = 0;
        while end < length && !mark(line.get_char(end))
            invariant
                end <= length == line@.len(),
                first_mark(line@, 0) == first_mark(line@, end as int),
            decreases length - end,
        {
            end += 1;
        }
        if end == 0 {
            return Ok(None);
        }
        if length < TAIL_WIDTH {
            return Err(LedgerError::TooShort);
        }
        let score = match read_number(line.substring_char(length - SCORE_WIDTH, length)) {
            Some(score) => score,
            None => {
                return Err(LedgerError::NotANumber);
            },
        };
        let date = String::from_str(
            line.substring_char(length - TAIL_WIDTH, length - TAIL_WIDTH + DATE_WIDTH),
        );
        let name = String::from_str(line.substring_char(0, end));
        Ok(Some(HighscoreEntry { score, date, name }))
    }

    /// Writes the line for a game that ended on the day that `date` starts
    /// with: the name is padded to 24 characters, the date is cut to ten,
    /// and the score is the total of the board. A name that is empty or
    /// too long gives no line.
    pub fn record(name: &str, date: &str, score: &Score) -> (line: Result<String, NameError>)
        ensures
            match line {
                Ok(text) => name_error(name@) is None && text@ == entry_line(
                    padded_name(name@),
                    date_field(date@),
                    total_of(score@) as nat,
                ),
                Err(error) => name_error(name@) == Some(error),
            },
    {
        let padded = match Self::pad_name(name) {
            Ok(padded) => padded,
            Err(error) => {
                return Err(error);
            },
        };
        let day = if date.unicode_len() > DATE_WIDTH {
            date.substring_char(0, DATE_WIDTH)
        } else {
            date
        };
        proof {
            score.lemma_total_range();
        }
        let total = score.total();
        Ok(Self::entry_line(padded.as_str(), day, total as u32))
    }

    /// Writes the line for a game that ended today. Whatever the clock
    /// says, the line is the one that `record` writes for some date of ten
    /// characters.
    pub fn log(name: &str, score: &Score) -> (line: Result<String, NameError>)
        ensures
            match line {
                Ok(text) => name_error(name@) is None && exists|date: Seq<char>|
                    date.len() == 10 && text@ == #[trigger] entry_line(
                        padded_name(name@),
                        date,
                        total_of(score@) as nat,
                    ),
                Err(error) => name_error(name@) == Some(error),
            },
    {
        let date = today();
        let line = Self::record(name, date.as_str(), score);
        line
    }

    /// Writes the line of the ledger for a name, a date and a score.
    pub fn entry_line(name: &str, date: &str, total: u32) -> (line: String)
        ensures
            line@ == entry_line(name@, date@, total as nat),
    {
        proof {
            reveal_strlit("| ");
            reveal_strlit(" |");
        }
        let mut line = String::from_str(name);
        line.append("| ");
        line.append(date);
        line.append(" |");
        line.append(Self::score_text(total).as_str());
        line
    }
}

} // verus!
