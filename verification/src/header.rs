//! The header that is printed above a file: its title in double width, and
//! under it a right-aligned table of what is known about the file.

use crate::encoder::push_text;
use crate::style::{disable_code, enable_code, push_disable, push_enable, Attribute, ESC};
use vstd::prelude::*;
use vstd::string::*;
use vstd::utf8::encode_utf8;

verus! {

/// What the file system knows about a file, as far as the header shows it.
/// Moments are counted in nanoseconds from the start of 1970, UTC.
#[derive(Clone, Copy, Debug, PartialEq, Eq, Structural)]
pub struct FileStat {
    /// When the file was created, where the file system tells.
    pub created: Option<i128>,
    /// When the file was last changed, where the file system tells.
    pub modified: Option<i128>,
    /// The size of the file in bytes.
    pub len: u64,
}

/// One row of the table in a header.
pub struct HeaderStat {
    pub title: String,
    pub value: String,
}

/// What a row is to the contracts.
pub struct HeaderStatView {
    pub title: Seq<char>,
    pub value: Seq<char>,
}

impl View for HeaderStat {
    type V = HeaderStatView;

    open spec fn view(&self) -> HeaderStatView {
        HeaderStatView { title: self.title@, value: self.value@ }
    }
}

/// The views of a sequence of rows, in order.
pub open spec fn stat_views(stats: Seq<HeaderStat>) -> Seq<HeaderStatView> {
    Seq::new(stats.len(), |i: int| stats[i]@)
}

/// A moment as RFC 2822 writes it, or `None` where it cannot: for a moment
/// that the calendar of the formatter does not reach, and for a year before 1900.
pub uninterp spec fn rfc2822_text(unix_nanos: int) -> Option<Seq<char>>;

/// A size in bytes as people read it, in binary units: `1 KiB` is 1024 bytes.
pub uninterp spec fn binary_size_text(length: u64) -> Seq<char>;

/// Makes a moment with `time::OffsetDateTime::from_unix_timestamp_nanos` and
/// writes it with `OffsetDateTime::format` in the well-known format
/// `Rfc2822`. The result is `None` where either of the two refuses.
///
/// The contract gives the result a name and claims no more than that it
/// depends on the moment alone: the moment is taken in UTC, and neither the
/// machine's time zone nor a locale has a part in it.
#[verifier::external_body]
fn format_moment(unix_nanos: i128) -> (text: Option<String>)
    ensures
        text_of(text) == rfc2822_text(unix_nanos as int),
{
    let moment = time::OffsetDateTime::from_unix_timestamp_nanos(unix_nanos).ok()?;
    moment.format(&time::format_description::well_known::Rfc2822).ok()
}

/// Writes a size with `humansize::format_size` and the options
/// `humansize::BINARY`.
///
/// The contract gives the result a name and claims no more than that it
/// depends on the size alone.
#[verifier::external_body]
fn format_length(length: u64) -> (text: String)
    ensures
        text@ == binary_size_text(length),
{
    humansize::format_size(length, humansize::BINARY)
}

/// The characters of a text that may be missing.
pub open spec fn text_of(text: Option<String>) -> Option<Seq<char>> {
    match text {
        Some(present) => Some(present@),
        None => None,
    }
}

/// The row for a value that may be missing: one row under `title` where it
/// is there, and no row where it is not.
pub open spec fn optional_row(title: Seq<char>, value: Option<Seq<char>>) -> Seq<HeaderStatView> {
    match value {
        Some(present) => seq![HeaderStatView { title, value: present }],
        None => Seq::empty(),
    }
}

/// The rows of a header for a file whose moments and size are already
/// written out: when it was created, when it was changed, and how large it is.
pub open spec fn rows_of_texts(
    created: Option<Seq<char>>,
    modified: Option<Seq<char>>,
    size: Seq<char>,
) -> Seq<HeaderStatView> {
    optional_row("Created"@, created) + optional_row("Modified"@, modified) + seq![
        HeaderStatView { title: "File Size"@, value: size },
    ]
}

/// The moment of a file as the header writes it.
pub open spec fn moment_text(moment: Option<i128>) -> Option<Seq<char>> {
    match moment {
        Some(unix_nanos) => rfc2822_text(unix_nanos as int),
        None => None,
    }
}

/// The rows of a header for a file.
pub open spec fn rows_of_stat(stat: FileStat) -> Seq<HeaderStatView> {
    rows_of_texts(
        moment_text(stat.created),
        moment_text(stat.modified),
        binary_size_text(stat.len),
    )
}

impl HeaderStat {
    /// A row with this title and this value.
    pub fn new(title: String, value: String) -> (stat: HeaderStat)
        ensures
            stat@ == (HeaderStatView { title: title@, value: value@ }),
    {
        HeaderStat { title, value }
    }

    /// The rows for a file whose moments and size are already written out:
    /// `Created` and `Modified`, each only where its text is there, and then
    /// `File Size`.
    pub fn from_texts(created: Option<String>, modified: Option<String>, size: String) -> (stats:
        Vec<HeaderStat>)
        ensures
            stat_views(stats@) == rows_of_texts(text_of(created), text_of(modified), size@),
    {
        let mut stats: Vec<HeaderStat> = Vec::new();
        if let Some(text) = created {
            stats.push(HeaderStat::new("Created".to_owned(), text));
        }
        if let Some(text) = modified {
            stats.push(HeaderStat::new("Modified".to_owned(), text));
        }
        stats.push(HeaderStat::new("File Size".to_owned(), size));
        assert(stat_views(stats@) =~= rows_of_texts(text_of(created), text_of(modified), size@));
        stats
    }

    /// The rows for a file: when it was created and when it was changed, each
    /// in the form of RFC 2822 and only where the moment is known and can be
    /// written so, and its size in binary units.
    pub fn from_stat(stat: FileStat) -> (stats: Vec<HeaderStat>)
        ensures
            stat_views(stats@) == rows_of_stat(stat),
    {
        let created = match stat.created {
            Some(unix_nanos) => format_moment(unix_nanos),
            None => None,
        };
        let modified = match stat.modified {
            Some(unix_nanos) => format_moment(unix_nanos),
            None => None,
        };
        HeaderStat::from_texts(created, modified, format_length(stat.len))
    }

    /// The rows for a file of which the file system may have told nothing:
    /// then there are none.
    pub fn from_file(metadata: Option<FileStat>) -> (stats: Vec<HeaderStat>)
        ensures
            stat_views(stats@) == match metadata {
                Some(stat) => rows_of_stat(stat),
                None => Seq::empty(),
            },
    {
        match metadata {
            Some(stat) => HeaderStat::from_stat(stat),
            None => {
                let stats: Vec<HeaderStat> = Vec::new();
                assert(stat_views(stats@) =~= Seq::<HeaderStatView>::empty());
                stats
            },
        }
    }
}

/// The header of one file.
pub struct Header {
    pub title: String,
    pub stats: Vec<HeaderStat>,
}

/// What a header is to the contracts.
pub struct HeaderView {
    pub title: Seq<char>,
    pub stats: Seq<HeaderStatView>,
}

impl View for Header {
    type V = HeaderView;

    open spec fn view(&self) -> HeaderView {
        HeaderView { title: self.title@, stats: stat_views(self.stats@) }
    }
}

/// The title of a header: the one that was asked for; without one, the path
/// of the file where that is text; and else nothing.
pub open spec fn title_for(path: Option<Seq<char>>, title: Option<Seq<char>>) -> Seq<char> {
    match (title, path) {
        (Some(asked), _) => asked,
        (None, Some(own)) => own,
        (None, None) => Seq::empty(),
    }
}

/// The width to which the values of a table are filled up: the length in
/// bytes of the longest of them.
pub open spec fn widest_value(stats: Seq<HeaderStatView>) -> nat
    decreases stats.len(),
{
    if stats.len() == 0 {
        0
    } else {
        let before = widest_value(stats.drop_last());
        let own = encode_utf8(stats.last().value).len();
        if own > before {
            own
        } else {
            before
        }
    }
}

/// The blanks that fill a value up to `width` characters.
pub open spec fn padding(width: nat, value: Seq<char>) -> Seq<u8> {
    Seq::new(
        if value.len() < width {
            (width - value.len()) as nat
        } else {
            0
        },
        |i: int| 0x20u8,
    )
}

/// One row as it is printed: its title in bold with a colon, its value
/// filled up to `width`, and a line end.
pub open spec fn row_bytes(stat: HeaderStatView, width: nat) -> Seq<u8> {
    enable_code(Attribute::Bold) + encode_utf8(stat.title) + seq![0x3Au8, 0x20u8] + encode_utf8(
        stat.value,
    ) + padding(width, stat.value) + disable_code(Attribute::Bold) + seq![0x0Au8]
}

/// The first `count` rows as they are printed.
pub open spec fn rows_bytes(stats: Seq<HeaderStatView>, width: nat, count: nat) -> Seq<u8>
    decreases count,
{
    if count == 0 {
        Seq::empty()
    } else {
        rows_bytes(stats, width, (count - 1) as nat) + row_bytes(stats[count - 1], width)
    }
}

/// A header as it is printed: the title in double width and bold on a line of
/// its own; then, right-aligned, the rows; then alignment back to the left
/// and an empty line.
pub open spec fn header_bytes(header: HeaderView) -> Seq<u8> {
    seq![ESC, 0x77u8, 0x31u8] + enable_code(Attribute::Bold) + encode_utf8(header.title)
        + disable_code(Attribute::Bold) + seq![ESC, 0x77u8, 0x30u8, 0x0Au8] + seq![
        ESC,
        0x61u8,
        0x32u8,
    ] + rows_bytes(header.stats, widest_value(header.stats), header.stats.len()) + seq![
        ESC,
        0x61u8,
        0x30u8,
        0x0Au8,
        0x0Au8,
    ]
}

impl Header {
    /// The header for a file: see [`title_for`] for its title and
    /// [`HeaderStat::from_file`] for its rows.
    pub fn for_file(path: Option<&str>, title: &Option<String>, metadata: Option<FileStat>) -> (header:
        Header)
        ensures
            header@.title == title_for(
                match path {
                    Some(own) => Some(own@),
                    None => None,
                },
                text_of(*title),
            ),
            header@.stats == match metadata {
                Some(stat) => rows_of_stat(stat),
                None => Seq::empty(),
            },
    {
        let title = match title {
            Some(asked) => asked.clone(),
            None => match path {
                Some(own) => own.to_owned(),
                None => String::new(),
            },
        };
        Header { title, stats: HeaderStat::from_file(metadata) }
    }

    /// The length in bytes of the longest value of the table.
    fn value_width(&self) -> (width: usize)
        ensures
            width == widest_value(self@.stats),
    {
        let mut width: usize = 0;
        let mut i: usize = 0;
        while i < self.stats.len()
            invariant
                i <= self.stats@.len(),
                width == widest_value(self@.stats.take(i as int)),
            decreases self.stats@.len() - i,
        {
            let own: usize = self.stats[i].value.as_str().as_bytes().len();
            assert(self@.stats.take(i + 1).drop_last() =~= self@.stats.take(i as int));
            assert(self@.stats.take(i + 1).last() == self.stats@[i as int]@);
            assert(own == encode_utf8(self.stats@[i as int]@.value).len());
            if own > width {
                width = own;
            }
            i += 1;
        }
        assert(self@.stats.take(i as int) =~= self@.stats);
        width
    }

    /// Prints the header onto the end of `out`.
    pub fn print(&self, out: &mut Vec<u8>)
        ensures
            final(out)@ == old(out)@ + header_bytes(self@),
    {
        let width: usize = self.value_width();
        let ghost stats = self@.stats;
        push_title(self.title.as_str(), out);
        let ghost head = out@;
        let mut i: usize = 0;
        assert(head + rows_bytes(stats, width as nat, 0) =~= head);
        while i < self.stats.len()
            invariant
                i <= self.stats@.len(),
                stats == self@.stats,
                out@ == head + rows_bytes(stats, width as nat, i as nat),
            decreases self.stats@.len() - i,
        {
            let ghost before = out@;
            push_row(&self.stats[i], width, out);
            i += 1;
            assert(out@ =~= head + rows_bytes(stats, width as nat, i as nat));
        }
        out.push(ESC);
        out.push(0x61);
        out.push(0x30);
        out.push(0x0A);
        out.push(0x0A);
        assert(out@ =~= old(out)@ + header_bytes(self@));
    }
}

/// Prints the title line of a header and switches to right alignment.
fn push_title(title: &str, out: &mut Vec<u8>)
    ensures
        final(out)@ == old(out)@ + seq![ESC, 0x77u8, 0x31u8] + enable_code(Attribute::Bold)
            + encode_utf8(title@) + disable_code(Attribute::Bold) + seq![
            ESC,
            0x77u8,
            0x30u8,
            0x0Au8,
        ] + seq![ESC, 0x61u8, 0x32u8],
{
    out.push(ESC);
    out.push(0x77);
    out.push(0x31);
    assert(out@ =~= old(out)@ + seq![ESC, 0x77u8, 0x31u8]);
    push_enable(Attribute::Bold, out);
    push_text(title, out);
    push_disable(Attribute::Bold, out);
    let ghost titled = out@;
    out.push(ESC);
    out.push(0x77);
    out.push(0x30);
    out.push(0x0A);
    assert(out@ =~= titled + seq![ESC, 0x77u8, 0x30u8, 0x0Au8]);
    let ghost closed = out@;
    out.push(ESC);
    out.push(0x61);
    out.push(0x32);
    assert(out@ =~= closed + seq![ESC, 0x61u8, 0x32u8]);
}

/// Prints one row of the table: see [`row_bytes`].
fn push_row(stat: &HeaderStat, width: usize, out: &mut Vec<u8>)
    ensures
        final(out)@ == old(out)@ + row_bytes(stat@, width as nat),
{
    push_enable(Attribute::Bold, out);
    push_text(stat.title.as_str(), out);
    let ghost titled = out@;
    out.push(0x3A);
    out.push(0x20);
    assert(out@ =~= titled + seq![0x3Au8, 0x20u8]);
    push_text(stat.value.as_str(), out);
    let ghost unpadded = out@;
    let characters: usize = stat.value.as_str().unicode_len();
    let mut filled: usize = characters;
    assert(unpadded + Seq::new(0, |i: int| 0x20u8) =~= unpadded);
    while filled < width
        invariant
            characters <= filled,
            filled <= width || filled == characters,
            out@ == unpadded + Seq::new((filled - characters) as nat, |i: int| 0x20u8),
        decreases width - filled,
    {
        out.push(0x20);
        filled = filled + 1;
        assert(out@ =~= unpadded + Seq::new((filled - characters) as nat, |i: int| 0x20u8));
    }
    assert(out@ == unpadded + padding(width as nat, stat@.value));
    let ghost padded = out@;
    push_disable(Attribute::Bold, out);
    out.push(0x0A);
    assert(out@ =~= padded + disable_code(Attribute::Bold) + seq![0x0Au8]);
}

} // verus!
