//! The output display: lines of output and command echoes, with a
//! collapsible region made for each finished output block.

use vstd::prelude::*;

use crate::output::collapse::{CollapseManager, CollapseRegion};
use crate::text::{chars_of, char_to_string, str_views, string_of};

verus! {

/// Whether `StrftimeItems::new(format).parse()` accepts `format`, that is,
/// whether it holds no unknown `%` specifier.
pub uninterp spec fn strftime_valid(format: Seq<char>) -> bool;

/// Whether `format` is a strftime format that chrono accepts.
///
/// Trusted: `chrono::format::StrftimeItems::new(format).parse().is_ok()`;
/// the contract only names the result.
#[verifier::external_body]
pub(crate) fn timestamp_format_is_valid(format: &str) -> (b: bool)
    ensures
        b == strftime_valid(format@),
{
    chrono::format::StrftimeItems::new(format).parse().is_ok()
}

/// The local time, formatted with `format`.
///
/// Trusted: `chrono::Local::now().format(format).to_string()`, which panics
/// on a format with an unknown specifier, hence the requirement. The text
/// depends on the clock, so nothing is stated of it.
#[verifier::external_body]
fn local_timestamp(format: &str) -> String
    requires
        strftime_valid(format@),
{
    chrono::Local::now().format(format).to_string()
}

/// A line of the display.
pub struct OutputLine {
    pub content: String,
    pub is_command: bool,
    pub timestamp: Option<String>,
}

impl OutputLine {
    /// A plain output line without timestamp.
    pub fn new(content: String) -> (l: Self)
        ensures
            l.content == content,
            !l.is_command,
            l.timestamp is None,
    {
        OutputLine { content, is_command: false, timestamp: None }
    }

    /// A command echo line.
    pub fn command(content: String, timestamp: Option<String>) -> (l: Self)
        ensures
            l.content == content,
            l.is_command,
            l.timestamp == timestamp,
    {
        OutputLine { content, is_command: true, timestamp }
    }
}

/// The first 40 characters of `s` (all of it when shorter).
pub open spec fn header_text(s: Seq<char>) -> Seq<char> {
    if s.len() <= 40 {
        s
    } else {
        s.take(40)
    }
}

/// The contents of the lines, in order.
pub open spec fn line_contents(lines: Seq<OutputLine>) -> Seq<Seq<char>> {
    lines.map_values(|l: OutputLine| l.content@)
}

/// Every content followed by a newline.
pub open spec fn export_lines(contents: Seq<Seq<char>>) -> Seq<char>
    decreases contents.len(),
{
    if contents.len() == 0 {
        Seq::empty()
    } else {
        export_lines(contents.drop_last()) + contents.last() + seq!['\n']
    }
}

/// `new` is `old` with the output line `content` added (stamped when
/// timestamps are enabled).
pub open spec fn line_added(old: DisplayWidget, new: DisplayWidget, content: Seq<char>) -> bool {
    &&& new.lines_of().len() == old.lines_of().len() + 1
    &&& new.lines_of().drop_last() == old.lines_of()
    &&& new.lines_of().last().content@ == content
    &&& !new.lines_of().last().is_command
    &&& new.lines_of().last().timestamp is Some == old.timestamp_enabled_of()
    &&& new.timestamp_format_of() == old.timestamp_format_of()
    &&& new.timestamp_enabled_of() == old.timestamp_enabled_of()
    &&& new.block_start_of() == old.block_start_of()
    &&& new.regions_of() == old.regions_of()
}

/// `new` is `old` with the system message `msg` added: `[msg]`.
pub open spec fn message_added(old: DisplayWidget, new: DisplayWidget, msg: Seq<char>) -> bool {
    line_added(old, new, seq!['['] + msg + seq![']'])
}

/// `new` is `old` with the command echo `content` added, the output block
/// before it made a collapsible region when it holds lines after its first.
pub open spec fn command_added(old: DisplayWidget, new: DisplayWidget, content: Seq<char>) -> bool {
    &&& new.lines_of().len() == old.lines_of().len() + 1
    &&& new.lines_of().drop_last() == old.lines_of()
    &&& new.lines_of().last().content@ == content
    &&& new.lines_of().last().is_command
    &&& new.lines_of().last().timestamp is None
    &&& new.block_start_of() == old.lines_of().len() + 1
    &&& old.lines_of().len() > old.block_start_of() + 1 ==> {
        let n = old.regions_of().len();
        let r = new.regions_of()[n as int];
        &&& new.regions_of().len() == n + 1
        &&& new.regions_of().take(n as int) == old.regions_of()
        &&& r.start == old.block_start_of()
        &&& r.end == old.lines_of().len()
        &&& r.header@ == header_text(old.lines_of()[old.block_start_of() as int].content@)
        &&& !r.collapsed
    }
    &&& old.lines_of().len() <= old.block_start_of() + 1 ==> new.regions_of() == old.regions_of()
    &&& new.timestamp_format_of() == old.timestamp_format_of()
    &&& new.timestamp_enabled_of() == old.timestamp_enabled_of()
}

/// Output display widget.
pub struct DisplayWidget {
    lines: Vec<OutputLine>,
    timestamp_format: String,
    timestamp_enabled: bool,
    collapse_manager: CollapseManager,
    /// Start line index of the current output block.
    block_start: usize,
}

impl DisplayWidget {
    pub closed spec fn lines_of(&self) -> Seq<OutputLine> {
        self.lines@
    }

    pub closed spec fn timestamp_format_of(&self) -> Seq<char> {
        self.timestamp_format@
    }

    pub closed spec fn timestamp_enabled_of(&self) -> bool {
        self.timestamp_enabled
    }

    /// Where the current output block starts: just after the last command.
    pub closed spec fn block_start_of(&self) -> nat {
        self.block_start as nat
    }

    /// The collapsible regions made so far.
    pub closed spec fn regions_of(&self) -> Seq<CollapseRegion> {
        self.collapse_manager.regions_of()
    }

    /// Whether a timestamp can be made for a new line: timestamps are off,
    /// or their format is one chrono accepts.
    pub open spec fn timestamps_ok(&self) -> bool {
        self.timestamp_enabled_of() ==> strftime_valid(self.timestamp_format_of())
    }

    pub fn new(timestamp_format: String, timestamp_enabled: bool) -> (w: Self)
        ensures
            w.lines_of() == Seq::<OutputLine>::empty(),
            w.timestamp_format_of() == timestamp_format@,
            w.timestamp_enabled_of() == timestamp_enabled,
            w.block_start_of() == 0,
            w.regions_of() == Seq::<CollapseRegion>::empty(),
    {
        DisplayWidget {
            lines: Vec::new(),
            timestamp_format,
            timestamp_enabled,
            collapse_manager: CollapseManager::new(),
            block_start: 0,
        }
    }

    /// Add a plain output line, stamped with the local time when timestamps
    /// are enabled.
    pub fn add_line(&mut self, content: String)
        requires
            old(self).timestamps_ok(),
        ensures
            final(self).lines_of().len() == old(self).lines_of().len() + 1,
            final(self).lines_of().drop_last() == old(self).lines_of(),
            final(self).lines_of().last().content == content,
            !final(self).lines_of().last().is_command,
            final(self).lines_of().last().timestamp is Some == old(self).timestamp_enabled_of(),
            final(self).timestamp_format_of() == old(self).timestamp_format_of(),
            final(self).timestamp_enabled_of() == old(self).timestamp_enabled_of(),
            final(self).block_start_of() == old(self).block_start_of(),
            final(self).regions_of() == old(self).regions_of(),
            line_added(*old(self), *final(self), content@),
    {
        let ts = if self.timestamp_enabled {
            Some(local_timestamp(self.timestamp_format.as_str()))
        } else {
            None
        };
        self.lines.push(OutputLine { content, is_command: false, timestamp: ts });
        proof {
            assert(self.lines@.drop_last() =~= old(self).lines@);
        }
    }

    /// Add a plain output line if a timestamp can be made for it (see
    /// `add_line`); otherwise change nothing. Returns whether the line was
    /// added.
    pub fn add_line_checked(&mut self, content: String) -> (added: bool)
        ensures
            added == old(self).timestamps_ok(),
            !added ==> *final(self) == *old(self),
            added ==> {
                &&& final(self).lines_of().len() == old(self).lines_of().len() + 1
                &&& final(self).lines_of().drop_last() == old(self).lines_of()
                &&& final(self).lines_of().last().content == content
                &&& !final(self).lines_of().last().is_command
                &&& final(self).lines_of().last().timestamp is Some == old(
                    self,
                ).timestamp_enabled_of()
            },
            final(self).timestamp_format_of() == old(self).timestamp_format_of(),
            final(self).timestamp_enabled_of() == old(self).timestamp_enabled_of(),
            final(self).block_start_of() == old(self).block_start_of(),
            final(self).regions_of() == old(self).regions_of(),
    {
        if self.timestamp_enabled && !timestamp_format_is_valid(self.timestamp_format.as_str()) {
            return false;
        }
        self.add_line(content);
        true
    }

    /// Add a command echo line. When output lines stand between the previous
    /// command and this one, they first become a collapsible region whose
    /// header is the first 40 characters of the block's first line.
    pub fn add_command(&mut self, content: String)
        ensures
            final(self).lines_of() == old(self).lines_of().push(
                OutputLine { content, is_command: true, timestamp: None },
            ),
            final(self).block_start_of() == old(self).lines_of().len() + 1,
            old(self).lines_of().len() > old(self).block_start_of() + 1 ==> {
                let n = old(self).regions_of().len();
                let r = final(self).regions_of()[n as int];
                &&& final(self).regions_of().len() == n + 1
                &&& final(self).regions_of().take(n as int) == old(self).regions_of()
                &&& r.start == old(self).block_start_of()
                &&& r.end == old(self).lines_of().len()
                &&& r.header@ == header_text(
                    old(self).lines_of()[old(self).block_start_of() as int].content@,
                )
                &&& !r.collapsed
            },
            old(self).lines_of().len() <= old(self).block_start_of() + 1 ==> final(self).regions_of()
                == old(self).regions_of(),
            final(self).timestamp_format_of() == old(self).timestamp_format_of(),
            final(self).timestamp_enabled_of() == old(self).timestamp_enabled_of(),
            command_added(*old(self), *final(self), content@),
    {
        let end = self.lines.len();
        if end > self.block_start && end - self.block_start > 1 {
            let first = chars_of(self.lines[self.block_start].content.as_str());
            let header = if first.len() <= 40 {
                string_of(&first)
            } else {
                let mut short: Vec<char> = Vec::new();
                let mut i: usize = 0;
                while i < 40
                    invariant
                        i <= 40 < first@.len(),
                        short@ == first@.take(i as int),
                    decreases 40 - i,
                {
                    short.push(first[i]);
                    proof {
                        assert(first@.take(i + 1) =~= first@.take(i as int).push(first@[i as int]));
                    }
                    i = i + 1;
                }
                string_of(&short)
            };
            self.collapse_manager.add_region(self.block_start, end, header.as_str());
        }
        self.lines.push(OutputLine::command(content, None));
        proof {
            assert(self.lines@.drop_last() =~= old(self).lines@);
        }
        self.block_start = self.lines.len();
    }

    /// Add a system message: the text in square brackets, as a plain line.
    pub fn add_message(&mut self, msg: &str)
        requires
            old(self).timestamps_ok(),
        ensures
            final(self).lines_of().len() == old(self).lines_of().len() + 1,
            final(self).lines_of().drop_last() == old(self).lines_of(),
            final(self).lines_of().last().content@ == seq!['['] + msg@ + seq![']'],
            !final(self).lines_of().last().is_command,
            final(self).lines_of().last().timestamp is Some == old(self).timestamp_enabled_of(),
            final(self).timestamp_format_of() == old(self).timestamp_format_of(),
            final(self).timestamp_enabled_of() == old(self).timestamp_enabled_of(),
            final(self).block_start_of() == old(self).block_start_of(),
            final(self).regions_of() == old(self).regions_of(),
            message_added(*old(self), *final(self), msg@),
    {
        let mut text = char_to_string('[');
        text.append(msg);
        let close = char_to_string(']');
        text.append(close.as_str());
        self.add_line(text);
    }

    pub fn lines(&self) -> (r: &[OutputLine])
        ensures
            r@ == self.lines_of(),
    {
        self.lines.as_slice()
    }

    /// The text of every line, in order.
    pub fn raw_lines(&self) -> (r: Vec<String>)
        ensures
            str_views(r@) == line_contents(self.lines_of()),
    {
        let mut out: Vec<String> = Vec::new();
        let mut i: usize = 0;
        while i < self.lines.len()
            invariant
                i <= self.lines@.len(),
                str_views(out@) == line_contents(self.lines@.take(i as int)),
            decreases self.lines@.len() - i,
        {
            out.push(self.lines[i].content.clone());
            proof {
                assert(line_contents(self.lines@.take(i + 1)) =~= line_contents(
                    self.lines@.take(i as int),
                ).push(self.lines@[i as int].content@));
            }
            i = i + 1;
        }
        proof {
            assert(self.lines@.take(self.lines@.len() as int) =~= self.lines@);
        }
        out
    }

    /// The text to export: every line's content followed by a newline.
    pub fn export_text(&self) -> (r: String)
        ensures
            r@ == export_lines(line_contents(self.lines_of())),
    {
        let mut out = String::new();
        let nl = char_to_string('\n');
        let mut i: usize = 0;
        while i < self.lines.len()
            invariant
                i <= self.lines@.len(),
                nl@ == seq!['\n'],
                out@ == export_lines(line_contents(self.lines@.take(i as int))),
            decreases self.lines@.len() - i,
        {
            proof {
                let cs = line_contents(self.lines@.take(i + 1));
                assert(cs.drop_last() =~= line_contents(self.lines@.take(i as int)));
                assert(cs.last() == self.lines@[i as int].content@);
            }
            out.append(self.lines[i].content.as_str());
            out.append(nl.as_str());
            i = i + 1;
        }
        proof {
            assert(self.lines@.take(self.lines@.len() as int) =~= self.lines@);
        }
        out
    }

    pub fn timestamp_enabled(&self) -> (b: bool)
        ensures
            b == self.timestamp_enabled_of(),
    {
        self.timestamp_enabled
    }

    pub fn timestamp_format(&self) -> (f: &str)
        ensures
            f@ == self.timestamp_format_of(),
    {
        self.timestamp_format.as_str()
    }

    /// Line count.
    pub fn len(&self) -> (n: usize)
        ensures
            n == self.lines_of().len(),
    {
        self.lines.len()
    }

    pub fn is_empty(&self) -> (b: bool)
        ensures
            b == (self.lines_of().len() == 0),
    {
        self.lines.len() == 0
    }

    /// Drop every line and region.
    pub fn clear(&mut self)
        ensures
            final(self).lines_of() == Seq::<OutputLine>::empty(),
            final(self).regions_of() == Seq::<CollapseRegion>::empty(),
            final(self).block_start_of() == 0,
            final(self).timestamp_format_of() == old(self).timestamp_format_of(),
            final(self).timestamp_enabled_of() == old(self).timestamp_enabled_of(),
    {
        self.lines = Vec::new();
        self.collapse_manager = CollapseManager::new();
        self.block_start = 0;
    }

    /// The collapsible regions.
    pub fn collapse(&self) -> (m: &CollapseManager)
        ensures
            m.regions_of() == self.regions_of(),
    {
        &self.collapse_manager
    }

    /// The collapsible regions, for toggling.
    pub fn collapse_manager(&mut self) -> (m: &mut CollapseManager)
        ensures
            m.regions_of() == old(self).regions_of(),
            final(self).regions_of() == final(m).regions_of(),
            final(self).lines_of() == old(self).lines_of(),
            final(self).block_start_of() == old(self).block_start_of(),
            final(self).timestamp_format_of() == old(self).timestamp_format_of(),
            final(self).timestamp_enabled_of() == old(self).timestamp_enabled_of(),
    {
        &mut self.collapse_manager
    }

    /// Update timestamp settings without losing existing content.
    pub fn update_timestamp_settings(&mut self, format: String, enabled: bool)
        ensures
            final(self).timestamp_format_of() == format@,
            final(self).timestamp_enabled_of() == enabled,
            final(self).lines_of() == old(self).lines_of(),
            final(self).block_start_of() == old(self).block_start_of(),
            final(self).regions_of() == old(self).regions_of(),
    {
        self.timestamp_format = format;
        self.timestamp_enabled = enabled;
    }
}

} // verus!
