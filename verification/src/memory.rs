//! The memory feed: the share of memory that is free, as a percentage.
//!
//! The figures come from a text of one entry per line, each entry a key, a
//! number and a unit separated by white space. Two entries matter: the total
//! and the free memory. The unit is not read, since only the ratio of the two
//! figures is shown.

use vstd::prelude::*;
use vstd::string::*;
use crate::ratio::{lemma_nearest_is_closest, lemma_percent_of_part, lemma_percent_text_width,
    percent, percent_string, percent_text};
use crate::scan::{chars_of, lemma_word_bounds, lemma_word_is_maximal, parse_range, parse_u64,
    spells, word, word_bounds, spans_word};
use crate::text::{decimal, right_aligned};

verus! {

/// Total and free memory, in whatever unit the source counts in.
#[derive(Clone, Copy, Debug, PartialEq, Eq, Structural)]
pub struct Meminfo {
    pub total: u64,
    pub free: u64,
}

/// Why a reading could not be taken.
#[derive(Clone, Copy, Debug, PartialEq, Eq, Structural)]
pub enum ReadError {
    /// The source could not be opened.
    IoFailure,
}

/// What the feed is set up with.
#[derive(Clone, Debug, PartialEq, Eq)]
pub struct MemoryConfig {
    /// Seconds between two polls.
    pub interval: u64,
    pub prefix: String,
}

/// A `MemoryConfig` with its prefix as a character sequence.
pub struct MemoryConfigView {
    pub interval: u64,
    pub prefix: Seq<char>,
}

impl View for MemoryConfig {
    type V = MemoryConfigView;

    open spec fn view(&self) -> MemoryConfigView {
        MemoryConfigView { interval: self.interval, prefix: self.prefix@ }
    }
}

/// The key of the entry for total memory.
pub open spec fn total_key() -> Seq<char> {
    seq!['M', 'e', 'm', 'T', 'o', 't', 'a', 'l', ':']
}

/// The key of the entry for free memory.
pub open spec fn free_key() -> Seq<char> {
    seq!['M', 'e', 'm', 'F', 'r', 'e', 'e', ':']
}

/// What has been found so far while going through the lines of the source.
#[derive(Clone, Copy, Debug, PartialEq, Eq, Structural)]
pub struct MemScan {
    pub total: Option<u64>,
    pub free: Option<u64>,
}

impl MemScan {
    /// The scan before any line has been seen.
    pub open spec fn empty() -> MemScan {
        MemScan { total: None, free: None }
    }

    /// Whether both figures have been found, so that no further line needs to
    /// be looked at.
    pub open spec fn complete(self) -> bool {
        self.total is Some && self.free is Some
    }

    /// The scan after one more line.
    ///
    /// A line counts only if it has at least three words and the first is one
    /// of the two keys. The second word is then taken as the figure for that
    /// key; if it is no number, the figure counts as not found, even if an
    /// earlier line had given one.
    pub open spec fn fed(self, line: Seq<char>) -> MemScan {
        match (word(line, 0), word(line, 1), word(line, 2)) {
            (Some(key), Some(figure), Some(_)) => {
                if key == total_key() {
                    MemScan { total: parse_u64(figure), free: self.free }
                } else if key == free_key() {
                    MemScan { total: self.total, free: parse_u64(figure) }
                } else {
                    self
                }
            },
            _ => self,
        }
    }

    /// The scan after the given lines, taken in order up to the point where
    /// both figures have been found. Lines after that point are not looked
    /// at.
    pub open spec fn scanned(self, lines: Seq<Seq<char>>) -> MemScan
        decreases lines.len(),
    {
        if self.complete() || lines.len() == 0 {
            self
        } else {
            self.fed(lines[0]).scanned(lines.skip(1))
        }
    }

    /// The reading that the scan amounts to: a figure that was not found
    /// counts as zero.
    pub open spec fn finished(self) -> Meminfo {
        Meminfo {
            total: match self.total {
                Some(n) => n,
                None => 0,
            },
            free: match self.free {
                Some(n) => n,
                None => 0,
            },
        }
    }

    /// Starts a scan.
    pub fn new() -> (scan: MemScan)
        ensures
            scan == MemScan::empty(),
    {
        MemScan { total: None, free: None }
    }

    /// Whether both figures have been found.
    pub fn is_complete(&self) -> (b: bool)
        ensures
            b == self.complete(),
    {
        self.total.is_some() && self.free.is_some()
    }

    /// Takes one more line into account.
    pub fn feed(self, line: &str) -> (next: MemScan)
        ensures
            next == self.fed(line@),
    {
        let chars = chars_of(line);
        let bounds = word_bounds(&chars, 3);
        if bounds.len() < 3 {
            proof {
                lemma_word_is_maximal(chars@, 0);
                lemma_word_is_maximal(chars@, 1);
            }
            return self;
        }
        let (key_start, key_end) = bounds[0];
        let (figure_start, figure_end) = bounds[1];
        proof {
            lemma_word_bounds(chars@, 0);
            lemma_word_bounds(chars@, 1);
            assert(spans_word(chars@, 0, bounds@[0]));
            assert(spans_word(chars@, 1, bounds@[1]));
            assert(spans_word(chars@, 2, bounds@[2]));
            reveal_strlit("MemTotal:");
            reveal_strlit("MemFree:");
            assert("MemTotal:"@ =~= total_key());
            assert("MemFree:"@ =~= free_key());
        }
        if spells(&chars, key_start, key_end, "MemTotal:") {
            MemScan { total: parse_range(&chars, figure_start, figure_end), free: self.free }
        } else if spells(&chars, key_start, key_end, "MemFree:") {
            MemScan { total: self.total, free: parse_range(&chars, figure_start, figure_end) }
        } else {
            self
        }
    }

    /// Ends the scan: a figure that was not found counts as zero.
    pub fn finish(self) -> (reading: Meminfo)
        ensures
            reading == self.finished(),
    {
        Meminfo {
            total: match self.total {
                Some(n) => n,
                None => 0,
            },
            free: match self.free {
                Some(n) => n,
                None => 0,
            },
        }
    }
}

/// The line that is emitted for a reading: the prefix, then the free memory
/// as a percentage of the total.
pub open spec fn memory_line(reading: Meminfo, cfg: MemoryConfigView) -> Seq<char> {
    cfg.prefix + percent_text(reading.free as nat, reading.total as nat)
}

/// What a poll emits: the line of the reading if one was taken, nothing if
/// the source failed.
pub open spec fn reported(reading: Result<Meminfo, ReadError>, cfg: MemoryConfigView) -> Option<
    Seq<char>,
> {
    match reading {
        Ok(m) => Some(memory_line(m, cfg)),
        Err(_) => None,
    }
}

/// The lines of a source as a reader meets them, each as a character
/// sequence; `None` stands for a line that could not be read.
pub open spec fn lines_met(source: Seq<Option<String>>) -> Seq<Option<Seq<char>>> {
    Seq::new(
        source.len(),
        |i: int|
            match source[i] {
                Some(line) => Some(line@),
                None => None,
            },
    )
}

/// The scan of the lines of a source from the state `scan` on. Lines are
/// taken in order until both figures are found, the lines run out, or a line
/// is reached that cannot be read. Such a line ends the scan: what was found
/// before it stands, and nothing after it is looked at.
pub open spec fn read_scan(scan: MemScan, source: Seq<Option<Seq<char>>>) -> MemScan
    decreases source.len(),
{
    if scan.complete() || source.len() == 0 {
        scan
    } else {
        match source[0] {
            Some(line) => read_scan(scan.fed(line), source.skip(1)),
            None => scan,
        }
    }
}

/// What comes of a read. A source that could not be opened, which `None`
/// stands for, fails the read. A source that was opened never does, whatever
/// its lines hold and whether or not they could be read: a figure that was
/// not found counts as zero.
pub open spec fn read_outcome(source: Option<Seq<Option<Seq<char>>>>) -> Result<
    Meminfo,
    ReadError,
> {
    match source {
        Some(lines) => Ok(read_scan(MemScan::empty(), lines).finished()),
        None => Err(ReadError::IoFailure),
    }
}

impl Meminfo {
    /// Takes a reading from a source: `None` if the source could not be
    /// opened, else its lines, where `None` stands for a line that could not
    /// be read.
    pub fn read(source: Option<&Vec<Option<String>>>) -> (reading: Result<Meminfo, ReadError>)
        ensures
            reading == read_outcome(
                match source {
                    Some(lines) => Some(lines_met(lines@)),
                    None => None,
                },
            ),
    {
        match source {
            Some(lines) => Ok(Meminfo::read_from(lines)),
            None => Err(ReadError::IoFailure),
        }
    }

    /// Takes a reading from the lines of a source that was opened; `None`
    /// stands for a line that could not be read.
    pub fn read_from(source: &Vec<Option<String>>) -> (reading: Meminfo)
        ensures
            reading == read_scan(MemScan::empty(), lines_met(source@)).finished(),
    {
        let ghost all = lines_met(source@);
        let mut scan = MemScan::new();
        let mut at: usize = 0;
        assert(all.skip(0) =~= all);
        while at < source.len() && !scan.is_complete()
            invariant
                at <= source.len(),
                all == lines_met(source@),
                read_scan(scan, all.skip(at as int)) == read_scan(MemScan::empty(), all),
            decreases source.len() - at,
        {
            assert(all.skip(at as int).skip(1) =~= all.skip(at + 1));
            match &source[at] {
                Some(line) => {
                    assert(all.skip(at as int)[0] == Some(line@));
                    scan = scan.feed(line.as_str());
                },
                None => {
                    assert(all.skip(at as int)[0] is None);
                    return scan.finish();
                },
            }
            at = at + 1;
        }
        scan.finish()
    }

    /// The reading that the given lines amount to.
    pub fn from_lines(lines: &Vec<String>) -> (reading: Meminfo)
        ensures
            reading == MemScan::empty().scanned(lines.deep_view()).finished(),
    {
        let ghost all = lines.deep_view();
        let mut scan = MemScan::new();
        let mut at: usize = 0;
        assert(all.skip(0) =~= all);
        while at < lines.len() && !scan.is_complete()
            invariant
                at <= lines.len(),
                all == lines.deep_view(),
                scan.scanned(all.skip(at as int)) == MemScan::empty().scanned(all),
            decreases lines.len() - at,
        {
            assert(all.skip(at as int)[0] == lines[at as int]@);
            assert(all.skip(at as int).skip(1) =~= all.skip(at + 1));
            scan = scan.feed(lines[at].as_str());
            at = at + 1;
        }
        scan.finish()
    }

    /// Renders the line that is emitted for this reading.
    pub fn format(&self, cfg: &MemoryConfig) -> (out: String)
        ensures
            out@ == memory_line(*self, cfg@),
    {
        let mut out = cfg.prefix.clone();
        out.append(percent_string(self.free, self.total).as_str());
        out
    }
}

/// Decides what a poll emits: the line of the reading if one was taken,
/// nothing if the source failed.
pub fn report(reading: &Result<Meminfo, ReadError>, cfg: &MemoryConfig) -> (line: Option<String>)
    ensures
        line.is_some() == reading.is_ok(),
        match line {
            Some(text) => Some(text@) == reported(*reading, cfg@),
            None => reported(*reading, cfg@) is None,
        },
{
    match reading {
        Ok(m) => Some(m.format(cfg)),
        Err(_) => None,
    }
}

/// While free memory is part of a non-empty total, the line shows the prefix
/// and then, in exactly four characters, the integer nearest to the exact
/// percentage (on a tie the even one), which is at most a hundred.
pub proof fn lemma_line_of_share(reading: Meminfo, cfg: MemoryConfigView)
    requires
        reading.total > 0,
        reading.free <= reading.total,
    ensures
        ({
            let shown = percent(reading.free as nat, reading.total as nat);
            let off = 100 * reading.free - shown * reading.total;
            &&& shown <= 100
            &&& -reading.total <= 2 * off <= reading.total
            &&& (2 * off == reading.total || 2 * off == -reading.total) ==> shown % 2 == 0
            &&& memory_line(reading, cfg) == cfg.prefix + right_aligned(decimal(shown), 3).push(
                '%',
            )
            &&& memory_line(reading, cfg).len() == cfg.prefix.len() + 4
        }),
{
    lemma_percent_of_part(reading.free as nat, reading.total as nat);
    lemma_nearest_is_closest(100 * reading.free as nat, reading.total as nat);
    lemma_percent_text_width(reading.free as nat, reading.total as nat);
}

/// With a total of zero the line is still defined: it shows zero percent,
/// whatever the free figure says.
pub proof fn lemma_line_of_empty_total(reading: Meminfo, cfg: MemoryConfigView)
    requires
        reading.total == 0,
    ensures
        memory_line(reading, cfg) == cfg.prefix + seq![' ', ' ', '0', '%'],
{
    assert(decimal(0) =~= seq!['0']);
    assert(percent_text(reading.free as nat, 0) =~= seq![' ', ' ', '0', '%']);
}

/// Where every line can be read, the scan of the source is the scan of its
/// lines.
pub proof fn lemma_read_of_readable(scan: MemScan, lines: Seq<Seq<char>>)
    ensures
        read_scan(scan, lines.map_values(|line: Seq<char>| Some(line))) == scan.scanned(lines),
    decreases lines.len(),
{
    let source = lines.map_values(|line: Seq<char>| Some(line));
    if !scan.complete() && lines.len() > 0 {
        lemma_read_of_readable(scan.fed(lines[0]), lines.skip(1));
        assert(source.skip(1) =~= lines.skip(1).map_values(|line: Seq<char>| Some(line)));
    }
}

/// A line that cannot be read ends the scan and fails nothing: with `lines`
/// read and the next line unreadable, the scan is that of `lines`, whatever
/// comes after.
pub proof fn lemma_read_stops_at_unreadable(
    scan: MemScan,
    lines: Seq<Seq<char>>,
    rest: Seq<Option<Seq<char>>>,
)
    ensures
        read_scan(scan, lines.map_values(|line: Seq<char>| Some(line)) + seq![None] + rest)
            == scan.scanned(lines),
    decreases lines.len(),
{
    let readable = lines.map_values(|line: Seq<char>| Some(line));
    let source = readable + seq![None] + rest;
    if !scan.complete() {
        if lines.len() == 0 {
            assert(source[0] is None);
        } else {
            lemma_read_stops_at_unreadable(scan.fed(lines[0]), lines.skip(1), rest);
            assert(source[0] == Some(lines[0]));
            assert(source.skip(1) =~= lines.skip(1).map_values(|line: Seq<char>| Some(line))
                + seq![None] + rest);
        }
    } else {
        lemma_scan_by_steps(scan, lines, Seq::empty());
    }
}

/// A source that was opened always gives a reading, and a source that could
/// not be opened never does.
pub proof fn lemma_read_fails_only_unopened(source: Option<Seq<Option<Seq<char>>>>)
    ensures
        read_outcome(source) is Err <==> source is None,
        source matches Some(lines) && lines.len() > 0 && lines[0] is None ==> read_outcome(source)
            == Ok::<Meminfo, ReadError>(Meminfo { total: 0, free: 0 }),
{
}

/// Going through the lines one at a time, stopping once both figures are
/// found, gives the same as going through them all at once; and once both
/// are found no later line changes anything.
pub proof fn lemma_scan_by_steps(scan: MemScan, lines: Seq<Seq<char>>, more: Seq<Seq<char>>)
    ensures
        scan.scanned(lines + more) == scan.scanned(lines).scanned(more),
        scan.complete() ==> scan.scanned(lines) == scan,
    decreases lines.len(),
{
    if scan.complete() {
        assert(scan.scanned(more) == scan);
    } else if lines.len() == 0 {
        assert(lines + more =~= more);
    } else {
        lemma_scan_by_steps(scan.fed(lines[0]), lines.skip(1), more);
        assert((lines + more).skip(1) =~= lines.skip(1) + more);
        assert((lines + more)[0] == lines[0]);
    }
}

} // verus!
